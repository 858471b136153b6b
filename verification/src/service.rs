use vstd::prelude::*;
use crate::db::{reserve_outcome, seat_flag, seats_with, MongoDB, ReleaseOutcome, ReserveOutcome};
use crate::error::BookingError;
use crate::ledger::{bookings_of_user, with_status};
use crate::models::{Booking, BookingStatus, Bus, CreateBookingRequest};
use crate::oid::{hex_value, is_object_id_text, ObjectId};
use crate::seats::{seat_views, Seat};
use crate::store::find_bus;

verus! {

/// The identifier that a text of 24 hexadecimal digits denotes.
pub open spec fn object_id_of(text: Seq<char>) -> ObjectId {
    ObjectId { value: hex_value(text) as u128 }
}

/// The record that a request becomes: confirmed, made at `now`, with the
/// identifier it is stored under.
pub open spec fn new_booking(id: ObjectId, user: ObjectId, req: CreateBookingRequest, now: i64) -> Booking {
    Booking {
        id: Some(id),
        user_id: user,
        bus_id: object_id_of(req.bus_id@),
        seat_number: req.seat_number,
        travel_date: req.travel_date,
        booking_date: now,
        status: BookingStatus::Confirmed,
        passenger: req.passenger,
    }
}

impl MongoDB {
    /// Why a request for a booking fails, if it does: the bus is unknown,
    /// the user's identifier is malformed, the bus has no such seat, the
    /// seat is taken, or the seat is free but the ledger is full.
    pub open spec fn create_failure(self, user_id: Seq<char>, req: CreateBookingRequest) -> Option<
        BookingError,
    > {
        if !is_object_id_text(req.bus_id@) {
            Some(BookingError::BusNotFound)
        } else if !is_object_id_text(user_id) {
            Some(BookingError::InvalidId)
        } else {
            match reserve_outcome(
                self.seats_of(object_id_of(req.bus_id@), req.travel_date@),
                req.seat_number@,
            ) {
                Err(e) => Some(e),
                Ok(ReserveOutcome::SeatNotFound) => Some(BookingError::InvalidSeat),
                Ok(ReserveOutcome::SeatTaken) => Some(BookingError::SeatAlreadyBooked),
                Ok(ReserveOutcome::Reserved) => if self.has_room() {
                    None
                } else {
                    Some(BookingError::StorageFailure)
                },
            }
        }
    }

    /// Whether `self` is `before` after the given booking was made: the
    /// booking is the last of the ledger, its seat is taken, and nothing
    /// else differs.
    pub open spec fn is_after_create(self, before: MongoDB, booking: Booking) -> bool {
        &&& self.db_name == before.db_name
        &&& self.users == before.users
        &&& self.buses == before.buses
        &&& self.max_bookings == before.max_bookings
        &&& self.bookings@ == before.bookings@.push(booking)
        &&& self.same_seats_elsewhere(before, booking.bus_id, booking.travel_date@)
        &&& self.seats_of(booking.bus_id, booking.travel_date@) == seats_with(
            before.seats_of(booking.bus_id, booking.travel_date@),
            booking.seat_number@,
            false,
        )
    }

    /// Whether `self` and `made` are what a request for a booking makes
    /// of `before`. A request that fails for the reason `create_failure`
    /// names returns that error and leaves all records and all seats as
    /// they were; the database itself is untouched unless the ledger
    /// refused the record. A request that does not fail returns the new
    /// record, which is then the last of the ledger, and its seat is
    /// taken and stored. A consistent database stays consistent.
    pub open spec fn is_create_step(
        self,
        before: MongoDB,
        user_id: Seq<char>,
        req: CreateBookingRequest,
        now: i64,
        made: Result<Booking, BookingError>,
    ) -> bool {
        &&& match before.create_failure(user_id, req) {
            Some(e) => {
                &&& made == Err::<Booking, BookingError>(e)
                &&& self.same_records(before)
                &&& self.same_seats(before)
                &&& e != BookingError::StorageFailure ==> self == before
            },
            None => {
                &&& made == Ok::<Booking, BookingError>(
                    new_booking(
                        ObjectId { value: before.bookings@.len() as u128 },
                        object_id_of(user_id),
                        req,
                        now,
                    ),
                )
                &&& self.is_after_create(before, made->Ok_0)
                &&& self.flag_at(object_id_of(req.bus_id@), req.travel_date@, req.seat_number@) == Some(
                    false,
                )
                &&& self.stored_seats(object_id_of(req.bus_id@), req.travel_date@) is Some
            },
        }
        &&& before.consistent() ==> self.consistent()
    }

    /// Why a cancellation fails, if it does. `StorageFailure` is the
    /// case of a confirmed booking whose seat cannot be found.
    pub open spec fn cancel_failure(self, booking_id: Seq<char>, user_id: Seq<char>) -> Option<
        BookingError,
    > {
        if !is_object_id_text(booking_id) {
            Some(BookingError::BookingNotFound)
        } else if !is_object_id_text(user_id) {
            Some(BookingError::InvalidId)
        } else {
            match self.booking_of(object_id_of(booking_id)) {
                None => Some(BookingError::BookingNotFound),
                Some(b) => if b.user_id != object_id_of(user_id) {
                    Some(BookingError::Unauthorized)
                } else if b.status == BookingStatus::Cancelled {
                    Some(BookingError::AlreadyCancelled)
                } else if seat_flag(self.seats_of(b.bus_id, b.travel_date@), b.seat_number@) is None {
                    Some(BookingError::StorageFailure)
                } else {
                    None
                },
            }
        }
    }

    /// Whether `self` is `before` after the booking at position `at` was
    /// marked cancelled, and nothing else in the ledger differs.
    pub open spec fn is_marked_cancelled(self, before: MongoDB, at: int) -> bool {
        &&& self.db_name == before.db_name
        &&& self.users == before.users
        &&& self.buses == before.buses
        &&& self.max_bookings == before.max_bookings
        &&& 0 <= at < before.bookings@.len()
        &&& self.bookings@ == before.bookings@.update(
            at,
            with_status(before.bookings@[at], BookingStatus::Cancelled),
        )
    }

    /// Whether `self` is `before` after the booking at position `at` was
    /// cancelled: it is marked cancelled, its seat is available, and
    /// nothing else differs.
    pub open spec fn is_after_cancel(self, before: MongoDB, at: int) -> bool {
        &&& self.is_marked_cancelled(before, at)
        &&& self.same_seats_elsewhere(before, before.bookings@[at].bus_id, before.bookings@[at].travel_date@)
        &&& self.seats_of(before.bookings@[at].bus_id, before.bookings@[at].travel_date@) == seats_with(
            before.seats_of(before.bookings@[at].bus_id, before.bookings@[at].travel_date@),
            before.bookings@[at].seat_number@,
            true,
        )
    }

    /// The bus with the given identifier; `BusNotFound` where the text is
    /// no identifier or the catalog has no such bus.
    pub fn get_bus(&self, id: &str) -> (bus: Result<Bus, BookingError>)
        ensures
            bus is Err ==> bus == Err::<Bus, BookingError>(BookingError::BusNotFound),
            bus is Ok <==> is_object_id_text(id@) && self.bus_of(object_id_of(id@)) is Some,
            bus is Ok ==> Some(bus->Ok_0) == self.bus_of(object_id_of(id@)),
    {
        match self.string_to_id(id) {
            Err(_) => Err(BookingError::BusNotFound),
            Ok(oid) => match find_bus(&self.buses, oid) {
                Some(i) => Ok(self.buses[i].duplicate()),
                None => Err(BookingError::BusNotFound),
            },
        }
    }

    /// Every bus of the catalog, in its order.
    pub fn get_buses(&self) -> (buses: Vec<Bus>)
        ensures
            buses@ == self.buses@,
    {
        let mut buses: Vec<Bus> = Vec::new();
        let mut i: usize = 0;
        while i < self.buses.len()
            invariant
                i <= self.buses@.len(),
                buses@ == self.buses@.take(i as int),
            decreases self.buses@.len() - i,
        {
            buses.push(self.buses[i].duplicate());
            assert(buses@ =~= self.buses@.take(i + 1));
            i = i + 1;
        }
        assert(self.buses@.take(i as int) =~= self.buses@);
        buses
    }

    /// The seats of the bus on the date: those stored for it; where none
    /// are, the seats "1" to the bus's seat count, all available.
    /// `BusNotFound` where the text is no identifier, or nothing is
    /// stored and the catalog does not have the bus.
    pub fn get_bus_seats(&self, bus_id: &str, date: &str) -> (seats: Result<Vec<Seat>, BookingError>)
        ensures
            seats is Err ==> seats == Err::<Vec<Seat>, BookingError>(BookingError::BusNotFound),
            seats is Ok <==> is_object_id_text(bus_id@) && self.seats_of(object_id_of(bus_id@), date@)
                is Some,
            seats is Ok ==> Some(seat_views(seats->Ok_0@)) == self.seats_of(object_id_of(bus_id@), date@),
    {
        match self.string_to_id(bus_id) {
            Err(_) => Err(BookingError::BusNotFound),
            Ok(bus) => self.get_seats(bus, date),
        }
    }

    /// Books the seat for the user: reserves it, then records a confirmed
    /// booking made at `now` (milliseconds since the epoch) and returns
    /// the record. Every failure leaves all records and all seats as they
    /// were; where the seat was reserved and the ledger then refused the
    /// record, the seat is released again before `StorageFailure` is
    /// returned.
    pub fn create_booking(&mut self, user_id: &str, req: &CreateBookingRequest, now: i64) -> (made: Result<
        Booking,
        BookingError,
    >)
        ensures
            final(self).is_create_step(*old(self), user_id@, *req, now, made),
    {
        let bus = match self.string_to_id(req.bus_id.as_str()) {
            Ok(bus) => bus,
            Err(_) => {
                return Err(BookingError::BusNotFound);
            },
        };
        let user = match self.string_to_id(user_id) {
            Ok(user) => user,
            Err(e) => {
                return Err(e);
            },
        };
        assert(bus == object_id_of(req.bus_id@));
        assert(user == object_id_of(user_id@));
        match self.try_reserve(bus, req.travel_date.as_str(), req.seat_number.as_str()) {
            Err(e) => {
                return Err(e);
            },
            Ok(ReserveOutcome::SeatNotFound) => {
                return Err(BookingError::InvalidSeat);
            },
            Ok(ReserveOutcome::SeatTaken) => {
                return Err(BookingError::SeatAlreadyBooked);
            },
            Ok(ReserveOutcome::Reserved) => {},
        }
        let ghost reserved = *self;
        let passenger = match &req.passenger {
            Some(p) => Some(p.duplicate()),
            None => None,
        };
        let booking = Booking {
            id: None,
            user_id: user,
            bus_id: bus,
            seat_number: req.seat_number.clone(),
            travel_date: req.travel_date.clone(),
            booking_date: now,
            status: BookingStatus::Confirmed,
            passenger,
        };
        let made = booking.duplicate();
        match self.insert_booking(booking) {
            Ok(id) => {
                let made = Booking {
                    id: Some(id),
                    user_id: made.user_id,
                    bus_id: made.bus_id,
                    seat_number: made.seat_number,
                    travel_date: made.travel_date,
                    booking_date: made.booking_date,
                    status: made.status,
                    passenger: made.passenger,
                };
                proof {
                    assert forall|b: ObjectId, d: Seq<char>| #[trigger] self.seats_of(b, d) == reserved.seats_of(b, d) by {}
                    assert(self.stored_seats(bus, req.travel_date@) == reserved.stored_seats(
                        bus,
                        req.travel_date@,
                    ));
                    crate::store::lemma_flag_after(
                        old(self).seats_of(bus, req.travel_date@),
                        req.seat_number@,
                        false,
                        req.seat_number@,
                    );
                    if old(self).consistent() {
                        crate::laws::lemma_create_consistent(*old(self), *self, made);
                    }
                }
                Ok(made)
            },
            Err(_) => {
                let _ = self.release(bus, req.travel_date.as_str(), req.seat_number.as_str());
                proof {
                    let seats = old(self).seats_of(bus, req.travel_date@);
                    crate::store::lemma_flag_restored(seats, req.seat_number@);
                    if old(self).consistent() {
                        crate::laws::lemma_same_view_consistent(*old(self), *self);
                    }
                }
                Err(BookingError::StorageFailure)
            },
        }
    }

    /// Cancels the user's booking: marks it cancelled, then releases its
    /// seat. A booking that is not there, is another user's, or is
    /// cancelled already is refused with nothing changed. Where the seat
    /// of a confirmed booking cannot be found, the booking is marked
    /// cancelled all the same and `StorageFailure` says that the seat was
    /// not released.
    pub fn cancel_booking(&mut self, booking_id: &str, user_id: &str) -> (done: Result<(), BookingError>)
        ensures
            match old(self).cancel_failure(booking_id@, user_id@) {
                Some(BookingError::StorageFailure) => {
                    &&& done == Err::<(), BookingError>(BookingError::StorageFailure)
                    &&& final(self).is_marked_cancelled(*old(self), object_id_of(booking_id@).value as int)
                    &&& final(self).same_seats(*old(self))
                },
                Some(e) => done == Err::<(), BookingError>(e) && *final(self) == *old(self),
                None => {
                    &&& done == Ok::<(), BookingError>(())
                    &&& final(self).is_after_cancel(*old(self), object_id_of(booking_id@).value as int)
                    &&& final(self).flag_at(
                        old(self).bookings@[object_id_of(booking_id@).value as int].bus_id,
                        old(self).bookings@[object_id_of(booking_id@).value as int].travel_date@,
                        old(self).bookings@[object_id_of(booking_id@).value as int].seat_number@,
                    ) == Some(true)
                },
            },
            old(self).consistent() ==> final(self).consistent(),
    {
        let id = match self.string_to_id(booking_id) {
            Ok(id) => id,
            Err(_) => {
                return Err(BookingError::BookingNotFound);
            },
        };
        let user = match self.string_to_id(user_id) {
            Ok(user) => user,
            Err(e) => {
                return Err(e);
            },
        };
        assert(id == object_id_of(booking_id@));
        assert(user == object_id_of(user_id@));
        let booking = match self.find_booking(id) {
            None => {
                return Err(BookingError::BookingNotFound);
            },
            Some(b) => b.duplicate(),
        };
        if booking.user_id.value != user.value {
            return Err(BookingError::Unauthorized);
        }
        match booking.status {
            BookingStatus::Cancelled => {
                return Err(BookingError::AlreadyCancelled);
            },
            BookingStatus::Confirmed => {},
        }
        let marked = self.set_status(id, BookingStatus::Cancelled);
        assert(marked is Ok);
        proof {
            assert forall|b: ObjectId, d: Seq<char>| #[trigger] self.seats_of(b, d) == old(self).seats_of(b, d) by {}
        }
        match self.release(booking.bus_id, booking.travel_date.as_str(), booking.seat_number.as_str()) {
            ReleaseOutcome::Released => {
                proof {
                    crate::store::lemma_flag_after(
                        old(self).seats_of(booking.bus_id, booking.travel_date@),
                        booking.seat_number@,
                        true,
                        booking.seat_number@,
                    );
                    if old(self).consistent() {
                        crate::laws::lemma_cancel_consistent(*old(self), *self, id.value as int);
                    }
                }
                Ok(())
            },
            ReleaseOutcome::SeatNotFound => {
                proof {
                    if old(self).consistent() {
                        assert(old(self).bookings@[id.value as int].is_confirmed());
                    }
                }
                Err(BookingError::StorageFailure)
            },
        }
    }

    /// The bookings of the user, in the order in which they were made.
    /// `InvalidId` where the text is no identifier.
    pub fn get_user_bookings(&self, user_id: &str) -> (found: Result<Vec<Booking>, BookingError>)
        ensures
            found is Ok <==> is_object_id_text(user_id@),
            found is Err ==> found == Err::<Vec<Booking>, BookingError>(BookingError::InvalidId),
            found is Ok ==> found->Ok_0@ == bookings_of_user(self.bookings@, object_id_of(user_id@)),
    {
        match self.string_to_id(user_id) {
            Err(e) => Err(e),
            Ok(user) => {
                assert(user == object_id_of(user_id@));
                Ok(self.find_bookings_by_user(user))
            },
        }
    }
}

} // verus!
