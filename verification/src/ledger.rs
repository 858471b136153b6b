use vstd::prelude::*;
use crate::db::MongoDB;
use crate::error::BookingError;
use crate::models::{Booking, BookingStatus};
use crate::oid::ObjectId;

verus! {

/// The booking with the given status in place of its own.
pub open spec fn with_status(booking: Booking, status: BookingStatus) -> Booking {
    Booking {
        id: booking.id,
        user_id: booking.user_id,
        bus_id: booking.bus_id,
        seat_number: booking.seat_number,
        travel_date: booking.travel_date,
        booking_date: booking.booking_date,
        status,
        passenger: booking.passenger,
    }
}

/// The booking with the given identifier in place of its own.
pub open spec fn with_id(booking: Booking, id: ObjectId) -> Booking {
    Booking {
        id: Some(id),
        user_id: booking.user_id,
        bus_id: booking.bus_id,
        seat_number: booking.seat_number,
        travel_date: booking.travel_date,
        booking_date: booking.booking_date,
        status: booking.status,
        passenger: booking.passenger,
    }
}

/// The bookings of the given user, in the order of the ledger.
pub open spec fn bookings_of_user(bookings: Seq<Booking>, user: ObjectId) -> Seq<Booking> {
    bookings.filter(|b: Booking| b.user_id == user)
}

impl MongoDB {
    /// The booking with the given identifier: a booking's identifier is
    /// its position in the ledger.
    pub open spec fn booking_of(self, id: ObjectId) -> Option<Booking> {
        if id.value < self.bookings@.len() {
            Some(self.bookings@[id.value as int])
        } else {
            None
        }
    }

    /// Whether the ledger can take one more record.
    pub open spec fn has_room(self) -> bool {
        self.bookings@.len() < self.max_bookings
    }

    /// Whether `self` is `before` with other bookings.
    pub open spec fn same_but_bookings(self, before: MongoDB) -> bool {
        &&& self.db_name == before.db_name
        &&& self.users == before.users
        &&& self.buses == before.buses
        &&& self.seat_availability == before.seat_availability
        &&& self.max_bookings == before.max_bookings
    }

    /// Appends the booking to the ledger and gives it its identifier,
    /// the position it got. `StorageFailure`, and nothing changed, where
    /// the ledger is full. Nothing is checked here: that the seat is free
    /// is the reservation's business.
    pub fn insert_booking(&mut self, booking: Booking) -> (id: Result<ObjectId, BookingError>)
        ensures
            final(self).same_but_bookings(*old(self)),
            old(self).has_room() ==> id == Ok::<ObjectId, BookingError>(
                ObjectId { value: old(self).bookings@.len() as u128 },
            ) && final(self).bookings@ == old(self).bookings@.push(with_id(booking, id->Ok_0)),
            !old(self).has_room() ==> id == Err::<ObjectId, BookingError>(BookingError::StorageFailure)
                && *final(self) == *old(self),
    {
        if self.bookings.len() >= self.max_bookings {
            return Err(BookingError::StorageFailure);
        }
        let id = ObjectId { value: self.bookings.len() as u128 };
        let record = Booking {
            id: Some(id),
            user_id: booking.user_id,
            bus_id: booking.bus_id,
            seat_number: booking.seat_number,
            travel_date: booking.travel_date,
            booking_date: booking.booking_date,
            status: booking.status,
            passenger: booking.passenger,
        };
        self.bookings.push(record);
        Ok(id)
    }

    /// The booking with the given identifier, if the ledger has it.
    pub fn find_booking(&self, id: ObjectId) -> (found: Option<&Booking>)
        ensures
            match found {
                Some(b) => self.booking_of(id) == Some(*b),
                None => self.booking_of(id) is None,
            },
    {
        if id.value < self.bookings.len() as u128 {
            Some(&self.bookings[id.value as usize])
        } else {
            None
        }
    }

    /// The bookings of the given user, in the order of the ledger.
    pub fn find_bookings_by_user(&self, user: ObjectId) -> (found: Vec<Booking>)
        ensures
            found@ == bookings_of_user(self.bookings@, user),
    {
        let mut found: Vec<Booking> = Vec::new();
        let mut i: usize = 0;
        while i < self.bookings.len()
            invariant
                i <= self.bookings@.len(),
                found@ == bookings_of_user(self.bookings@.take(i as int), user),
            decreases self.bookings@.len() - i,
        {
            proof {
                let head = self.bookings@.take(i as int);
                head.lemma_filter_push(self.bookings@[i as int], |b: Booking| b.user_id == user);
                assert(self.bookings@.take(i + 1) =~= head.push(self.bookings@[i as int]));
            }
            if self.bookings[i].user_id.value == user.value {
                found.push(self.bookings[i].duplicate());
            }
            i = i + 1;
        }
        assert(self.bookings@.take(i as int) =~= self.bookings@);
        found
    }

    /// Sets the status of the booking with the given identifier, and
    /// nothing else. `BookingNotFound`, and nothing changed, where the
    /// ledger has no such booking. Whether the change is a legal one is
    /// the caller's business.
    pub fn set_status(&mut self, id: ObjectId, status: BookingStatus) -> (done: Result<(), BookingError>)
        ensures
            final(self).same_but_bookings(*old(self)),
            match old(self).booking_of(id) {
                Some(b) => done is Ok && final(self).bookings@ == old(self).bookings@.update(
                    id.value as int,
                    with_status(b, status),
                ),
                None => done == Err::<(), BookingError>(BookingError::BookingNotFound) && *final(self)
                    == *old(self),
            },
    {
        if id.value >= self.bookings.len() as u128 {
            return Err(BookingError::BookingNotFound);
        }
        let at: usize = id.value as usize;
        let current = self.bookings[at].duplicate();
        let record = Booking {
            id: current.id,
            user_id: current.user_id,
            bus_id: current.bus_id,
            seat_number: current.seat_number,
            travel_date: current.travel_date,
            booking_date: current.booking_date,
            status,
            passenger: current.passenger,
        };
        self.bookings.set(at, record);
        Ok(())
    }
}

} // verus!
