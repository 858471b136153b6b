use vstd::prelude::*;
use crate::oid::ObjectId;
use crate::seats::Seat;

verus! {

/// What a new user sends to register.
pub struct RegisterRequest {
    pub username: String,
    pub email: String,
    pub password: String,
}

/// What a user sends to log in.
pub struct LoginRequest {
    pub email: String,
    pub password: String,
}

/// A log-in by a token of the identity provider.
pub struct GoogleLoginRequest {
    pub token: String,
}

/// A user as the catalog of users holds it.
pub struct User {
    pub id: Option<ObjectId>,
    pub username: String,
    pub email: String,
    pub password: String,
    pub role: String,
}

/// A user as it is shown to callers: without the password.
pub struct UserResponse {
    pub id: String,
    pub username: String,
    pub email: String,
    pub role: String,
}

/// The claims of an access token.
pub struct Claims {
    pub sub: String,
    pub role: String,
    pub exp: usize,
}

/// The answer to a successful registration or log-in.
pub struct AuthResponse {
    pub token: String,
    pub user: UserResponse,
}

/// Where and when a bus runs. The price is in whole shillings.
pub struct Route {
    pub from: String,
    pub to: String,
    pub departure_time: String,
    pub arrival_time: String,
    pub price: u64,
}

/// A bus of the catalog.
pub struct Bus {
    pub id: Option<ObjectId>,
    pub bus_number: String,
    pub bus_type: String,
    pub total_seats: i32,
    pub route: Route,
}

/// A bus as it is shown to callers: the identifier as text.
pub struct BusResponse {
    pub id: String,
    pub bus_number: String,
    pub bus_type: String,
    pub total_seats: i32,
    pub route: Route,
}

/// The seats of one bus on one travel date, as shown to callers.
pub struct SeatAvailabilityResponse {
    pub travel_date: String,
    pub seats: Vec<Seat>,
}

/// The date for which seats are asked.
pub struct SeatDateQuery {
    pub date: String,
}

/// The stored seats of one bus on one travel date.
pub struct SeatAvailability {
    pub bus_id: ObjectId,
    pub travel_date: String,
    pub seats: Vec<Seat>,
}

/// Who travels on a booking.
pub struct PassengerDetails {
    pub name: String,
    pub age: u32,
    pub gender: String,
}

/// The state of a booking. `Cancelled` is final.
#[derive(Clone, Copy, Debug, PartialEq, Eq, Structural)]
pub enum BookingStatus {
    Confirmed,
    Cancelled,
}

/// A request for one seat of one bus on one travel date.
pub struct CreateBookingRequest {
    pub bus_id: String,
    pub seat_number: String,
    pub travel_date: String,
    pub passenger: Option<PassengerDetails>,
}

/// One record of the booking ledger.
pub struct Booking {
    pub id: Option<ObjectId>,
    pub user_id: ObjectId,
    pub bus_id: ObjectId,
    pub seat_number: String,
    pub travel_date: String,
    pub booking_date: i64,
    pub status: BookingStatus,
    pub passenger: Option<PassengerDetails>,
}

/// What a bus is, as plain values.
pub struct BusView {
    pub id: Option<ObjectId>,
    pub bus_number: Seq<char>,
    pub bus_type: Seq<char>,
    pub total_seats: int,
    pub from: Seq<char>,
    pub to: Seq<char>,
    pub departure_time: Seq<char>,
    pub arrival_time: Seq<char>,
    pub price: nat,
}

impl View for Bus {
    type V = BusView;

    open spec fn view(&self) -> BusView {
        BusView {
            id: self.id,
            bus_number: self.bus_number@,
            bus_type: self.bus_type@,
            total_seats: self.total_seats as int,
            from: self.route.from@,
            to: self.route.to@,
            departure_time: self.route.departure_time@,
            arrival_time: self.route.arrival_time@,
            price: self.route.price as nat,
        }
    }
}

/// The name of a status as the ledger writes it.
pub open spec fn status_name(status: BookingStatus) -> Seq<char> {
    match status {
        BookingStatus::Confirmed => "Confirmed"@,
        BookingStatus::Cancelled => "Cancelled"@,
    }
}

/// The name of a status as it is shown: in lower case.
pub open spec fn status_label(status: BookingStatus) -> Seq<char> {
    match status {
        BookingStatus::Confirmed => "confirmed"@,
        BookingStatus::Cancelled => "cancelled"@,
    }
}

impl BookingStatus {
    /// The name of the status as the ledger writes it.
    pub fn name(&self) -> (text: &'static str)
        ensures
            text@ == status_name(*self),
    {
        match self {
            BookingStatus::Confirmed => "Confirmed",
            BookingStatus::Cancelled => "Cancelled",
        }
    }

    /// The name of the status as it is shown: in lower case.
    pub fn label(&self) -> (text: &'static str)
        ensures
            text@ == status_label(*self),
    {
        match self {
            BookingStatus::Confirmed => "confirmed",
            BookingStatus::Cancelled => "cancelled",
        }
    }
}

impl Route {
    /// A copy of the route.
    pub fn duplicate(&self) -> (copy: Route)
        ensures
            copy == *self,
    {
        Route {
            from: self.from.clone(),
            to: self.to.clone(),
            departure_time: self.departure_time.clone(),
            arrival_time: self.arrival_time.clone(),
            price: self.price,
        }
    }
}

impl Bus {
    /// A copy of the bus.
    pub fn duplicate(&self) -> (copy: Bus)
        ensures
            copy == *self,
    {
        Bus {
            id: self.id,
            bus_number: self.bus_number.clone(),
            bus_type: self.bus_type.clone(),
            total_seats: self.total_seats,
            route: self.route.duplicate(),
        }
    }
}

/// The text of a bus's identifier: 24 hexadecimal digits, or nothing
/// where the bus has no identifier.
pub open spec fn bus_id_text(id: Option<ObjectId>) -> Seq<char> {
    match id {
        Some(oid) => crate::oid::hex_text(oid.value as nat, crate::oid::OBJECT_ID_DIGITS as nat),
        None => Seq::empty(),
    }
}

impl From<Bus> for BusResponse {
    /// The bus with its identifier as text; every other field as it is.
    fn from(bus: Bus) -> (shown: BusResponse)
        ensures
            shown.id@ == bus_id_text(bus.id),
            shown.bus_number == bus.bus_number,
            shown.bus_type == bus.bus_type,
            shown.total_seats == bus.total_seats,
            shown.route == bus.route,
    {
        let id = match bus.id {
            Some(oid) => oid.to_hex(),
            None => String::new(),
        };
        BusResponse {
            id,
            bus_number: bus.bus_number,
            bus_type: bus.bus_type,
            total_seats: bus.total_seats,
            route: bus.route,
        }
    }
}

impl vstd::std_specs::convert::FromSpecImpl<Bus> for BusResponse {
    open spec fn obeys_from_spec() -> bool {
        false
    }

    open spec fn from_spec(bus: Bus) -> BusResponse {
        arbitrary()
    }
}

impl PassengerDetails {
    /// A copy of the passenger's details.
    pub fn duplicate(&self) -> (copy: PassengerDetails)
        ensures
            copy == *self,
    {
        PassengerDetails { name: self.name.clone(), age: self.age, gender: self.gender.clone() }
    }
}

impl Booking {
    /// A copy of the booking.
    pub fn duplicate(&self) -> (copy: Booking)
        ensures
            copy == *self,
    {
        let passenger = match &self.passenger {
            Some(p) => Some(p.duplicate()),
            None => None,
        };
        Booking {
            id: self.id,
            user_id: self.user_id,
            bus_id: self.bus_id,
            seat_number: self.seat_number.clone(),
            travel_date: self.travel_date.clone(),
            booking_date: self.booking_date,
            status: self.status,
            passenger,
        }
    }

    /// Whether the booking holds its seat.
    pub open spec fn is_confirmed(self) -> bool {
        self.status == BookingStatus::Confirmed
    }

    /// Whether the booking is for the given seat of the given bus on the
    /// given date.
    pub open spec fn is_for(self, bus: ObjectId, date: Seq<char>, seat: Seq<char>) -> bool {
        self.bus_id == bus && self.travel_date@ == date && self.seat_number@ == seat
    }
}

} // verus!
