use vstd::prelude::*;
use crate::db::{seat_flag, seat_index, seats_with, MongoDB};
use crate::error::BookingError;
use crate::models::{Booking, CreateBookingRequest};
use crate::oid::{is_object_id_text, ObjectId};
use crate::seats::{default_seats, distinct_numbers, lemma_numbered_distinct, numbered_in_order, SeatView};
use crate::service::{new_booking, object_id_of};
use crate::store::lemma_flag_after;

verus! {

/// Whether two sequences of seats have the same numbers in the same
/// order.
pub open spec fn same_numbers(a: Seq<SeatView>, b: Seq<SeatView>) -> bool {
    &&& a.len() == b.len()
    &&& forall|i: int| 0 <= i < a.len() ==> (#[trigger] a[i]).seat_number == b[i].seat_number
}

impl MongoDB {
    /// Whether the seat of the bus on the date is available: `None`
    /// where the bus is unknown or has no such seat.
    pub open spec fn flag_at(self, bus: ObjectId, date: Seq<char>, seat: Seq<char>) -> Option<bool> {
        seat_flag(self.seats_of(bus, date), seat)
    }

    /// Whether the booking at position `j` is confirmed and for the
    /// given seat of the given bus on the given date.
    pub open spec fn holds(self, j: int, bus: ObjectId, date: Seq<char>, seat: Seq<char>) -> bool {
        &&& 0 <= j < self.bookings@.len()
        &&& self.bookings@[j].is_confirmed()
        &&& self.bookings@[j].is_for(bus, date, seat)
    }

    /// Every booking is stored under its position in the ledger.
    pub open spec fn ledger_numbered(self) -> bool {
        forall|j: int|
            0 <= j < self.bookings@.len() ==> (#[trigger] self.bookings@[j]).id == Some(
                ObjectId { value: j as u128 },
            )
    }

    /// The seat of every confirmed booking is marked as taken.
    pub open spec fn confirmed_seats_taken(self) -> bool {
        forall|j: int|
            0 <= j < self.bookings@.len() && (#[trigger] self.bookings@[j]).is_confirmed()
                ==> self.flag_at(
                self.bookings@[j].bus_id,
                self.bookings@[j].travel_date@,
                self.bookings@[j].seat_number@,
            ) == Some(false)
    }

    /// No two confirmed bookings are for the same seat of the same bus
    /// on the same date.
    pub open spec fn no_double_booking(self) -> bool {
        forall|j: int, k: int|
            0 <= j < k < self.bookings@.len() && (#[trigger] self.bookings@[j]).is_confirmed() && (
            #[trigger] self.bookings@[k]).is_confirmed() ==> !self.bookings@[k].is_for(
                self.bookings@[j].bus_id,
                self.bookings@[j].travel_date@,
                self.bookings@[j].seat_number@,
            )
    }

    /// Every seat that is marked as taken is that of a confirmed booking.
    pub open spec fn taken_seats_booked(self) -> bool {
        forall|bus: ObjectId, date: Seq<char>, seat: Seq<char>|
            #[trigger] self.flag_at(bus, date, seat) == Some(false) ==> exists|j: int|
                self.holds(j, bus, date, seat)
    }

    /// Wherever a bus has seats on a date, the catalog has the bus, and
    /// the seats are as many as the bus has, numbered "1", "2", ... in
    /// order.
    pub open spec fn seats_follow_catalog(self) -> bool {
        forall|bus: ObjectId, date: Seq<char>|
            (#[trigger] self.seats_of(bus, date)) is Some ==> self.bus_of(bus) is Some && same_numbers(
                self.seats_of(bus, date)->Some_0,
                default_seats(self.bus_of(bus)->Some_0.total_seats as int),
            )
    }

    /// The invariant of the engine: a seat is marked as taken if and only
    /// if a confirmed booking is for it, there is at most one such
    /// booking, the seats of every bus are those of the catalog, and the
    /// ledger is numbered.
    pub open spec fn consistent(self) -> bool {
        &&& self.ledger_numbered()
        &&& self.confirmed_seats_taken()
        &&& self.no_double_booking()
        &&& self.taken_seats_booked()
        &&& self.seats_follow_catalog()
    }
}

/// Whether the two databases know the same buses, each with the same
/// number of seats.
pub open spec fn same_fleet(a: MongoDB, b: MongoDB) -> bool {
    forall|bus: ObjectId|
        (#[trigger] a.bus_of(bus) is Some <==> b.bus_of(bus) is Some) && (a.bus_of(bus) is Some
            ==> a.bus_of(bus)->Some_0.total_seats == b.bus_of(bus)->Some_0.total_seats)
}

/// A database that shows the same fleet, bookings and seats as a
/// consistent one is consistent.
pub proof fn lemma_same_view_consistent(before: MongoDB, after: MongoDB)
    requires
        before.consistent(),
        same_fleet(after, before),
        after.bookings == before.bookings,
        after.same_seats(before),
    ensures
        after.consistent(),
{
    assert forall|bus: ObjectId, date: Seq<char>, seat: Seq<char>| #[trigger]
        after.flag_at(bus, date, seat) == before.flag_at(bus, date, seat) by {
        assert(after.seats_of(bus, date) == before.seats_of(bus, date));
    }
    assert forall|j: int|
        0 <= j < after.bookings@.len() && (#[trigger] after.bookings@[j]).is_confirmed() implies after.flag_at(
        after.bookings@[j].bus_id,
        after.bookings@[j].travel_date@,
        after.bookings@[j].seat_number@,
    ) == Some(false) by {
        assert(before.bookings@[j].is_confirmed());
    }
    assert forall|bus: ObjectId, date: Seq<char>, seat: Seq<char>| #[trigger]
        after.flag_at(bus, date, seat) == Some(false) implies exists|j: int|
        after.holds(j, bus, date, seat) by {
        assert(before.flag_at(bus, date, seat) == Some(false));
        let j = choose|j: int| before.holds(j, bus, date, seat);
        assert(after.holds(j, bus, date, seat));
    }
    assert forall|bus: ObjectId, date: Seq<char>| (#[trigger] after.seats_of(bus, date)) is Some implies after.bus_of(
        bus,
    ) is Some && same_numbers(
        after.seats_of(bus, date)->Some_0,
        default_seats(after.bus_of(bus)->Some_0.total_seats as int),
    ) by {
        assert(before.seats_of(bus, date) is Some);
        assert(after.bus_of(bus) is Some <==> before.bus_of(bus) is Some);
    }
}

/// Setting a seat's flag keeps the seats' numbers.
pub proof fn lemma_seats_with_numbers(seats: Option<Seq<SeatView>>, n: Seq<char>, available: bool)
    ensures
        seats_with(seats, n, available) is Some <==> seats is Some,
        seats is Some ==> same_numbers(seats_with(seats, n, available)->Some_0, seats->Some_0),
{
    if seats is Some {
        let s = seats->Some_0;
        if seat_index(s, n) is Some {
            crate::search::lemma_first_hit_some(crate::db::seat_hits(s, n));
        }
    }
}

/// Making a booking for an available seat keeps the database consistent.
pub proof fn lemma_create_consistent(before: MongoDB, after: MongoDB, booking: Booking)
    requires
        before.consistent(),
        after.is_after_create(before, booking),
        booking.is_confirmed(),
        booking.id == Some(ObjectId { value: before.bookings@.len() as u128 }),
        before.flag_at(booking.bus_id, booking.travel_date@, booking.seat_number@) == Some(true),
    ensures
        after.consistent(),
{
    let bus0 = booking.bus_id;
    let date0 = booking.travel_date@;
    let seat0 = booking.seat_number@;
    let last = before.bookings@.len() as int;
    assert forall|bus: ObjectId, date: Seq<char>, seat: Seq<char>| #[trigger]
        after.flag_at(bus, date, seat) == (if bus == bus0 && date == date0 && seat == seat0 {
            Some(false)
        } else {
            before.flag_at(bus, date, seat)
        }) by {
        if bus == bus0 && date == date0 {
            lemma_flag_after(before.seats_of(bus0, date0), seat0, false, seat);
        } else {
            assert(after.seats_of(bus, date) == before.seats_of(bus, date));
        }
    }
    assert(after.ledger_numbered()) by {
        assert forall|j: int| 0 <= j < after.bookings@.len() implies (#[trigger] after.bookings@[j]).id == Some(
            ObjectId { value: j as u128 },
        ) by {
            if j < last {
                assert(after.bookings@[j] == before.bookings@[j]);
            }
        }
    }
    assert(after.confirmed_seats_taken()) by {
        assert forall|j: int|
            0 <= j < after.bookings@.len() && (#[trigger] after.bookings@[j]).is_confirmed() implies after.flag_at(
            after.bookings@[j].bus_id,
            after.bookings@[j].travel_date@,
            after.bookings@[j].seat_number@,
        ) == Some(false) by {
            if j < last {
                assert(after.bookings@[j] == before.bookings@[j]);
                assert(before.bookings@[j].is_confirmed());
            }
        }
    }
    assert(after.no_double_booking()) by {
        assert forall|j: int, k: int|
            0 <= j < k < after.bookings@.len() && (#[trigger] after.bookings@[j]).is_confirmed() && (
            #[trigger] after.bookings@[k]).is_confirmed() implies !after.bookings@[k].is_for(
            after.bookings@[j].bus_id,
            after.bookings@[j].travel_date@,
            after.bookings@[j].seat_number@,
        ) by {
            assert(after.bookings@[j] == before.bookings@[j]);
            assert(before.bookings@[j].is_confirmed());
            if k < last {
                assert(after.bookings@[k] == before.bookings@[k]);
                assert(before.bookings@[k].is_confirmed());
            }
        }
    }
    assert(after.taken_seats_booked()) by {
        assert forall|bus: ObjectId, date: Seq<char>, seat: Seq<char>| #[trigger]
            after.flag_at(bus, date, seat) == Some(false) implies exists|j: int|
            after.holds(j, bus, date, seat) by {
            if bus == bus0 && date == date0 && seat == seat0 {
                assert(after.holds(last, bus, date, seat));
            } else {
                assert(before.flag_at(bus, date, seat) == Some(false));
                let j = choose|j: int| before.holds(j, bus, date, seat);
                assert(after.bookings@[j] == before.bookings@[j]);
                assert(after.holds(j, bus, date, seat));
            }
        }
    }
    assert(after.seats_follow_catalog()) by {
        assert forall|bus: ObjectId, date: Seq<char>| (#[trigger] after.seats_of(bus, date)) is Some implies after.bus_of(
            bus,
        ) is Some && same_numbers(
            after.seats_of(bus, date)->Some_0,
            default_seats(after.bus_of(bus)->Some_0.total_seats as int),
        ) by {
            if bus == bus0 && date == date0 {
                lemma_seats_with_numbers(before.seats_of(bus0, date0), seat0, false);
                assert(before.seats_of(bus, date) is Some);
            } else {
                assert(after.seats_of(bus, date) == before.seats_of(bus, date));
                assert(before.seats_of(bus, date) is Some);
            }
        }
    }
}

/// Cancelling a confirmed booking keeps the database consistent.
pub proof fn lemma_cancel_consistent(before: MongoDB, after: MongoDB, at: int)
    requires
        before.consistent(),
        after.is_after_cancel(before, at),
        before.bookings@[at].is_confirmed(),
    ensures
        after.consistent(),
{
    let gone = before.bookings@[at];
    let bus0 = gone.bus_id;
    let date0 = gone.travel_date@;
    let seat0 = gone.seat_number@;
    assert(before.flag_at(bus0, date0, seat0) == Some(false));
    assert forall|bus: ObjectId, date: Seq<char>, seat: Seq<char>| #[trigger]
        after.flag_at(bus, date, seat) == (if bus == bus0 && date == date0 && seat == seat0 {
            Some(true)
        } else {
            before.flag_at(bus, date, seat)
        }) by {
        if bus == bus0 && date == date0 {
            lemma_flag_after(before.seats_of(bus0, date0), seat0, true, seat);
        } else {
            assert(after.seats_of(bus, date) == before.seats_of(bus, date));
        }
    }
    assert forall|j: int| 0 <= j < after.bookings@.len() && j != at implies #[trigger] after.bookings@[j]
        == before.bookings@[j] by {}
    assert(after.ledger_numbered()) by {
        assert forall|j: int| 0 <= j < after.bookings@.len() implies (#[trigger] after.bookings@[j]).id == Some(
            ObjectId { value: j as u128 },
        ) by {
            assert(before.bookings@[j].id == Some(ObjectId { value: j as u128 }));
        }
    }
    assert(after.confirmed_seats_taken()) by {
        assert forall|j: int|
            0 <= j < after.bookings@.len() && (#[trigger] after.bookings@[j]).is_confirmed() implies after.flag_at(
            after.bookings@[j].bus_id,
            after.bookings@[j].travel_date@,
            after.bookings@[j].seat_number@,
        ) == Some(false) by {
            assert(j != at);
            assert(before.bookings@[j].is_confirmed());
            if j < at {
                assert(!before.bookings@[at].is_for(
                    before.bookings@[j].bus_id,
                    before.bookings@[j].travel_date@,
                    before.bookings@[j].seat_number@,
                ));
            } else {
                assert(!before.bookings@[j].is_for(bus0, date0, seat0));
            }
        }
    }
    assert(after.no_double_booking()) by {
        assert forall|j: int, k: int|
            0 <= j < k < after.bookings@.len() && (#[trigger] after.bookings@[j]).is_confirmed() && (
            #[trigger] after.bookings@[k]).is_confirmed() implies !after.bookings@[k].is_for(
            after.bookings@[j].bus_id,
            after.bookings@[j].travel_date@,
            after.bookings@[j].seat_number@,
        ) by {
            assert(j != at && k != at);
            assert(before.bookings@[j].is_confirmed());
            assert(before.bookings@[k].is_confirmed());
        }
    }
    assert(after.taken_seats_booked()) by {
        assert forall|bus: ObjectId, date: Seq<char>, seat: Seq<char>| #[trigger]
            after.flag_at(bus, date, seat) == Some(false) implies exists|j: int|
            after.holds(j, bus, date, seat) by {
            assert(!(bus == bus0 && date == date0 && seat == seat0));
            assert(before.flag_at(bus, date, seat) == Some(false));
            let j = choose|j: int| before.holds(j, bus, date, seat);
            assert(j != at);
            assert(after.bookings@[j] == before.bookings@[j]);
            assert(after.holds(j, bus, date, seat));
        }
    }
    assert(after.seats_follow_catalog()) by {
        assert forall|bus: ObjectId, date: Seq<char>| (#[trigger] after.seats_of(bus, date)) is Some implies after.bus_of(
            bus,
        ) is Some && same_numbers(
            after.seats_of(bus, date)->Some_0,
            default_seats(after.bus_of(bus)->Some_0.total_seats as int),
        ) by {
            if bus == bus0 && date == date0 {
                lemma_seats_with_numbers(before.seats_of(bus0, date0), seat0, true);
                assert(before.seats_of(bus, date) is Some);
            } else {
                assert(after.seats_of(bus, date) == before.seats_of(bus, date));
                assert(before.seats_of(bus, date) is Some);
            }
        }
    }
}

/// In a consistent database at most one confirmed booking is for any
/// one seat of a bus on a date.
pub proof fn law_one_confirmed_booking_per_seat(
    db: MongoDB,
    j: int,
    k: int,
    bus: ObjectId,
    date: Seq<char>,
    seat: Seq<char>,
)
    requires
        db.consistent(),
        db.holds(j, bus, date, seat),
        db.holds(k, bus, date, seat),
    ensures
        j == k,
{
    if j < k {
        assert(db.bookings@[j].is_confirmed() && db.bookings@[k].is_confirmed());
    } else if k < j {
        assert(db.bookings@[k].is_confirmed() && db.bookings@[j].is_confirmed());
    }
}

/// In a consistent database a seat is marked as taken if and only if a
/// confirmed booking is for it.
pub proof fn law_taken_iff_booked(db: MongoDB, bus: ObjectId, date: Seq<char>, seat: Seq<char>)
    requires
        db.consistent(),
    ensures
        db.flag_at(bus, date, seat) == Some(false) <==> exists|j: int| db.holds(j, bus, date, seat),
{
    if exists|j: int| db.holds(j, bus, date, seat) {
        let j = choose|j: int| db.holds(j, bus, date, seat);
        assert(db.bookings@[j].is_confirmed());
    }
}

/// In a consistent database the seats of a bus on a date have distinct
/// numbers, and are as many as the catalog says.
pub proof fn law_seats_distinct(db: MongoDB, bus: ObjectId, date: Seq<char>)
    requires
        db.consistent(),
        db.seats_of(bus, date) is Some,
    ensures
        distinct_numbers(db.seats_of(bus, date)->Some_0),
        db.bus_of(bus) is Some,
        db.seats_of(bus, date)->Some_0.len() == default_seats(
            db.bus_of(bus)->Some_0.total_seats as int,
        ).len(),
{
    let s = db.seats_of(bus, date)->Some_0;
    let d = default_seats(db.bus_of(bus)->Some_0.total_seats as int);
    assert(numbered_in_order(s)) by {
        assert forall|i: int| 0 <= i < s.len() implies (#[trigger] s[i]).seat_number == crate::seats::decimal(
            (i + 1) as nat,
        ) by {
            assert(s[i].seat_number == d[i].seat_number);
        }
    }
    lemma_numbered_distinct(s);
}

/// Once a request for a seat has succeeded, a further request for the
/// same seat of the same bus on the same date, by whichever user, is
/// refused with `SeatAlreadyBooked`.
pub proof fn law_second_request_refused(
    before: MongoDB,
    after: MongoDB,
    user_id: Seq<char>,
    req: CreateBookingRequest,
    now: i64,
    other_user: Seq<char>,
    other_req: CreateBookingRequest,
)
    requires
        before.create_failure(user_id, req) is None,
        after.is_after_create(
            before,
            new_booking(
                ObjectId { value: before.bookings@.len() as u128 },
                object_id_of(user_id),
                req,
                now,
            ),
        ),
        is_object_id_text(other_user),
        is_object_id_text(other_req.bus_id@),
        object_id_of(other_req.bus_id@) == object_id_of(req.bus_id@),
        other_req.travel_date@ == req.travel_date@,
        other_req.seat_number@ == req.seat_number@,
    ensures
        after.create_failure(other_user, other_req) == Some(BookingError::SeatAlreadyBooked),
{
    let bus = object_id_of(req.bus_id@);
    lemma_flag_after(before.seats_of(bus, req.travel_date@), req.seat_number@, false, req.seat_number@);
}

/// A seat that was booked and whose booking was cancelled can be booked
/// again: the cancellation succeeds, and after it a request for the same
/// seat succeeds as long as the ledger has room.
pub proof fn law_release_reacquire(
    before: MongoDB,
    booked: MongoDB,
    cancelled: MongoDB,
    user_id: Seq<char>,
    req: CreateBookingRequest,
    now: i64,
    booking_id: Seq<char>,
    next_user: Seq<char>,
)
    requires
        before.create_failure(user_id, req) is None,
        booked.is_after_create(
            before,
            new_booking(
                ObjectId { value: before.bookings@.len() as u128 },
                object_id_of(user_id),
                req,
                now,
            ),
        ),
        is_object_id_text(booking_id),
        object_id_of(booking_id).value == before.bookings@.len(),
        cancelled.is_after_cancel(booked, before.bookings@.len() as int),
        is_object_id_text(next_user),
        cancelled.has_room(),
    ensures
        booked.cancel_failure(booking_id, user_id) is None,
        cancelled.create_failure(next_user, req) is None,
{
    let bus = object_id_of(req.bus_id@);
    let seats = before.seats_of(bus, req.travel_date@);
    lemma_flag_after(seats, req.seat_number@, false, req.seat_number@);
    lemma_flag_after(seats_with(seats, req.seat_number@, false), req.seat_number@, true, req.seat_number@);
}

/// A booking that was cancelled cannot be cancelled again: the second
/// attempt is refused with `AlreadyCancelled`.
pub proof fn law_double_cancel_refused(
    before: MongoDB,
    after: MongoDB,
    booking_id: Seq<char>,
    user_id: Seq<char>,
)
    requires
        before.cancel_failure(booking_id, user_id) is None,
        after.is_after_cancel(before, object_id_of(booking_id).value as int),
    ensures
        after.cancel_failure(booking_id, user_id) == Some(BookingError::AlreadyCancelled),
{
}

/// How many of the outcomes are successes.
pub open spec fn count_ok(outcomes: Seq<Result<Booking, BookingError>>) -> nat
    decreases outcomes.len(),
{
    if outcomes.len() == 0 {
        0
    } else {
        count_ok(outcomes.drop_last()) + if outcomes.last() is Ok {
            1nat
        } else {
            0nat
        }
    }
}

/// Whether the databases, users, requests, times and outcomes are those
/// of a run of requests made one after another, each for the given seat
/// of the given bus on the given date and by a user with a well-formed
/// identifier: `states[i]` is the database before request `i` and
/// `states[i + 1]` the one after it.
pub open spec fn is_run_for_seat(
    states: Seq<MongoDB>,
    users: Seq<Seq<char>>,
    reqs: Seq<CreateBookingRequest>,
    nows: Seq<i64>,
    outcomes: Seq<Result<Booking, BookingError>>,
    bus: ObjectId,
    date: Seq<char>,
    seat: Seq<char>,
) -> bool {
    &&& states.len() == outcomes.len() + 1
    &&& users.len() == outcomes.len()
    &&& reqs.len() == outcomes.len()
    &&& nows.len() == outcomes.len()
    &&& forall|i: int|
        0 <= i < outcomes.len() ==> {
            &&& (#[trigger] states[i + 1]).is_create_step(states[i], users[i], reqs[i], nows[i], outcomes[i])
            &&& is_object_id_text(users[i])
            &&& is_object_id_text(reqs[i].bus_id@)
            &&& object_id_of(reqs[i].bus_id@) == bus
            &&& reqs[i].travel_date@ == date
            &&& reqs[i].seat_number@ == seat
        }
}

/// In a run of requests for one available seat, every request after the
/// first is refused with `SeatAlreadyBooked` and leaves the database as
/// the first left it; counted up to request `n`.
proof fn lemma_run_losers(
    states: Seq<MongoDB>,
    users: Seq<Seq<char>>,
    reqs: Seq<CreateBookingRequest>,
    nows: Seq<i64>,
    outcomes: Seq<Result<Booking, BookingError>>,
    bus: ObjectId,
    date: Seq<char>,
    seat: Seq<char>,
    n: int,
)
    requires
        is_run_for_seat(states, users, reqs, nows, outcomes, bus, date, seat),
        1 <= n <= outcomes.len(),
        states[0].flag_at(bus, date, seat) == Some(true),
        states[0].has_room(),
    ensures
        outcomes[0] is Ok,
        states[1].flag_at(bus, date, seat) == Some(false),
        states[n] == states[1],
        forall|i: int|
            1 <= i < n ==> #[trigger] outcomes[i] == Err::<Booking, BookingError>(
                BookingError::SeatAlreadyBooked,
            ) && states[i + 1] == states[1],
        count_ok(outcomes.take(n)) == 1,
    decreases n,
{
    assert(states[0int + 1].is_create_step(states[0], users[0], reqs[0], nows[0], outcomes[0]));
    assert(states[0].create_failure(users[0], reqs[0]) is None);
    if n == 1 {
        assert(outcomes.take(1).drop_last() =~= Seq::<Result<Booking, BookingError>>::empty());
        assert(outcomes.take(1).last() == outcomes[0]);
        assert(count_ok(outcomes.take(1).drop_last()) == 0);
    } else {
        lemma_run_losers(states, users, reqs, nows, outcomes, bus, date, seat, n - 1);
        let i = n - 1;
        assert(states[i + 1].is_create_step(states[i], users[i], reqs[i], nows[i], outcomes[i]));
        assert(states[i].create_failure(users[i], reqs[i]) == Some(BookingError::SeatAlreadyBooked));
        assert(outcomes.take(n).drop_last() =~= outcomes.take(n - 1));
        assert(outcomes.take(n).last() == outcomes[i]);
    }
}

/// Of any number of requests for one available seat of a bus on a date,
/// made one after another by whichever users while the ledger has room,
/// exactly one succeeds: the first. Every other is refused with
/// `SeatAlreadyBooked` and leaves no record and no trace: the database
/// stays as the first request left it, with the seat taken and the one
/// new booking at the end of the ledger. Where the database was
/// consistent, that booking is the only confirmed one for the seat.
pub proof fn law_one_request_wins(
    states: Seq<MongoDB>,
    users: Seq<Seq<char>>,
    reqs: Seq<CreateBookingRequest>,
    nows: Seq<i64>,
    outcomes: Seq<Result<Booking, BookingError>>,
    bus: ObjectId,
    date: Seq<char>,
    seat: Seq<char>,
)
    requires
        is_run_for_seat(states, users, reqs, nows, outcomes, bus, date, seat),
        outcomes.len() >= 1,
        states[0].flag_at(bus, date, seat) == Some(true),
        states[0].has_room(),
    ensures
        count_ok(outcomes) == 1,
        outcomes[0] is Ok,
        forall|i: int|
            1 <= i < outcomes.len() ==> #[trigger] outcomes[i] == Err::<Booking, BookingError>(
                BookingError::SeatAlreadyBooked,
            ) && states[i + 1] == states[1],
        states.last().bookings@ == states[0].bookings@.push(outcomes[0]->Ok_0),
        states.last().flag_at(bus, date, seat) == Some(false),
        states.last().holds(states[0].bookings@.len() as int, bus, date, seat),
        states[0].consistent() ==> forall|j: int|
            states.last().holds(j, bus, date, seat) ==> j == states[0].bookings@.len(),
{
    let k = outcomes.len() as int;
    lemma_run_losers(states, users, reqs, nows, outcomes, bus, date, seat, k);
    assert(outcomes.take(k) =~= outcomes);
    assert(states[0int + 1].is_create_step(states[0], users[0], reqs[0], nows[0], outcomes[0]));
    let winner = states[1];
    let at = states[0].bookings@.len() as int;
    assert(winner.bookings@[at] == outcomes[0]->Ok_0);
    assert(winner.holds(at, bus, date, seat));
    if states[0].consistent() {
        assert forall|j: int| winner.holds(j, bus, date, seat) implies j == at by {
            law_one_confirmed_booking_per_seat(winner, j, at, bus, date, seat);
        }
    }
}

} // verus!
