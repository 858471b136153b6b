use vstd::prelude::*;
use crate::db::{
    bus_hits, doc_hits, release_outcome, reserve_outcome, seat_flag, seat_hits, seat_index, seats_with,
    with_seat_flag, MongoDB, ReleaseOutcome, ReserveOutcome,
};
use crate::error::BookingError;
use crate::models::{Bus, SeatAvailability};
use crate::oid::ObjectId;
use crate::search::{
    first_hit, is_first, lemma_first_hit_absent, lemma_first_hit_found, lemma_first_hit_push_hit,
    lemma_first_hit_push_miss,
};
use crate::seats::{derive_default_seats, seat_views, Seat, SeatView};

verus! {

/// The flag of seat `m` after the seat with number `n` got the flag
/// `available`: that flag for `n` itself, where there is such a seat, and
/// the flag as it was for any other.
pub proof fn lemma_flag_after(seats: Option<Seq<SeatView>>, n: Seq<char>, available: bool, m: Seq<char>)
    ensures
        seat_flag(seats_with(seats, n, available), m) == if m == n && seat_flag(seats, n) is Some {
            Some(available)
        } else {
            seat_flag(seats, m)
        },
{
    if seats is Some {
        let s = seats->Some_0;
        if seat_index(s, n) is Some {
            let i = seat_index(s, n)->Some_0;
            let t = with_seat_flag(s, i, available);
            crate::search::lemma_first_hit_some(seat_hits(s, n));
            assert(seat_hits(t, m) =~= seat_hits(s, m));
            if seat_index(s, m) is Some {
                crate::search::lemma_first_hit_some(seat_hits(s, m));
            }
        }
    }
}

/// Taking an available seat and releasing it again gives the seats as
/// they were.
pub proof fn lemma_flag_restored(seats: Option<Seq<SeatView>>, n: Seq<char>)
    requires
        seat_flag(seats, n) == Some(true),
    ensures
        seats_with(seats_with(seats, n, false), n, true) == seats,
{
    let s = seats->Some_0;
    let i = seat_index(s, n)->Some_0;
    let t = with_seat_flag(s, i, false);
    crate::search::lemma_first_hit_some(seat_hits(s, n));
    assert(seat_hits(t, n) =~= seat_hits(s, n));
    assert(with_seat_flag(t, i, true) =~= s);
}

/// The position of the first bus with the given identifier.
pub fn find_bus(buses: &Vec<Bus>, id: ObjectId) -> (found: Option<usize>)
    ensures
        match found {
            Some(i) => first_hit(bus_hits(buses@, id)) == Some(i as int),
            None => first_hit(bus_hits(buses@, id)) is None,
        },
{
    let ghost hits = bus_hits(buses@, id);
    let mut i: usize = 0;
    while i < buses.len()
        invariant
            i <= buses@.len(),
            hits == bus_hits(buses@, id),
            forall|j: int| 0 <= j < i ==> !#[trigger] hits[j],
        decreases buses@.len() - i,
    {
        let hit = match buses[i].id {
            Some(other) => other.value == id.value,
            None => false,
        };
        if hit {
            proof {
                assert(is_first(hits, i as int));
                lemma_first_hit_found(hits, i as int);
            }
            return Some(i);
        }
        assert(!hits[i as int]);
        i = i + 1;
    }
    proof {
        lemma_first_hit_absent(hits);
    }
    None
}

/// The position of the first stored record of the given bus and date.
pub fn find_doc(docs: &Vec<SeatAvailability>, bus: ObjectId, date: &String) -> (found: Option<usize>)
    ensures
        match found {
            Some(i) => first_hit(doc_hits(docs@, bus, date@)) == Some(i as int),
            None => first_hit(doc_hits(docs@, bus, date@)) is None,
        },
{
    let ghost hits = doc_hits(docs@, bus, date@);
    let mut i: usize = 0;
    while i < docs.len()
        invariant
            i <= docs@.len(),
            hits == doc_hits(docs@, bus, date@),
            forall|j: int| 0 <= j < i ==> !#[trigger] hits[j],
        decreases docs@.len() - i,
    {
        if docs[i].bus_id.value == bus.value && docs[i].travel_date == *date {
            proof {
                assert(is_first(hits, i as int));
                lemma_first_hit_found(hits, i as int);
            }
            return Some(i);
        }
        assert(!hits[i as int]);
        i = i + 1;
    }
    proof {
        lemma_first_hit_absent(hits);
    }
    None
}

/// The position of the first seat with the given number.
pub fn find_seat(seats: &Vec<Seat>, number: &String) -> (found: Option<usize>)
    ensures
        match found {
            Some(i) => seat_index(seat_views(seats@), number@) == Some(i as int),
            None => seat_index(seat_views(seats@), number@) is None,
        },
{
    let ghost hits = seat_hits(seat_views(seats@), number@);
    let mut i: usize = 0;
    while i < seats.len()
        invariant
            i <= seats@.len(),
            hits == seat_hits(seat_views(seats@), number@),
            forall|j: int| 0 <= j < i ==> !#[trigger] hits[j],
        decreases seats@.len() - i,
    {
        if seats[i].seat_number == *number {
            proof {
                assert(is_first(hits, i as int));
                lemma_first_hit_found(hits, i as int);
            }
            return Some(i);
        }
        assert(!hits[i as int]);
        i = i + 1;
    }
    proof {
        lemma_first_hit_absent(hits);
    }
    None
}

/// A copy of the seats.
pub fn duplicate_seats(seats: &Vec<Seat>) -> (copy: Vec<Seat>)
    ensures
        copy@ == seats@,
{
    let mut copy: Vec<Seat> = Vec::new();
    let mut i: usize = 0;
    while i < seats.len()
        invariant
            i <= seats@.len(),
            copy@ == seats@.take(i as int),
        decreases seats@.len() - i,
    {
        copy.push(seats[i].duplicate());
        assert(copy@ =~= seats@.take(i + 1));
        i = i + 1;
    }
    assert(seats@.take(i as int) =~= seats@);
    copy
}

/// A copy of the seats in which seat `i` has the given flag.
pub fn seats_with_flag(seats: &Vec<Seat>, i: usize, available: bool) -> (copy: Vec<Seat>)
    requires
        i < seats@.len(),
    ensures
        seat_views(copy@) == with_seat_flag(seat_views(seats@), i as int, available),
{
    let mut copy = duplicate_seats(seats);
    let number = seats[i].seat_number.clone();
    copy.set(i, Seat { seat_number: number, is_available: available });
    assert(seat_views(copy@) =~= with_seat_flag(seat_views(seats@), i as int, available));
    copy
}

impl MongoDB {
    /// The seats of the bus on the date: those stored for it; where none
    /// are, the seats "1" to the bus's seat count, all available.
    /// `BusNotFound` where nothing is stored and the catalog does not
    /// have the bus.
    pub fn get_seats(&self, bus: ObjectId, date: &str) -> (seats: Result<Vec<Seat>, BookingError>)
        ensures
            match self.seats_of(bus, date@) {
                Some(s) => seats is Ok && seat_views(seats->Ok_0@) == s,
                None => seats == Err::<Vec<Seat>, BookingError>(BookingError::BusNotFound),
            },
    {
        let date_text = date.to_owned();
        match find_doc(&self.seat_availability, bus, &date_text) {
            Some(d) => Ok(duplicate_seats(&self.seat_availability[d].seats)),
            None => match find_bus(&self.buses, bus) {
                Some(b) => Ok(derive_default_seats(self.buses[b].total_seats)),
                None => Err(BookingError::BusNotFound),
            },
        }
    }

    /// Stores the given seats for the bus and date, in place of the
    /// record `slot` where there is one, else as a new record.
    fn put_seats(&mut self, slot: Option<usize>, bus: ObjectId, date: String, seats: Vec<Seat>)
        requires
            match slot {
                Some(d) => first_hit(doc_hits(old(self).seat_availability@, bus, date@)) == Some(d as int),
                None => first_hit(doc_hits(old(self).seat_availability@, bus, date@)) is None,
            },
        ensures
            final(self).same_records(*old(self)),
            final(self).same_seats_elsewhere(*old(self), bus, date@),
            final(self).stored_seats(bus, date@) == Some(seat_views(seats@)),
            final(self).seats_of(bus, date@) == Some(seat_views(seats@)),
    {
        let ghost before = self.seat_availability@;
        let ghost views = seat_views(seats@);
        let ghost date_view = date@;
        let record = SeatAvailability { bus_id: bus, travel_date: date, seats };
        match slot {
            Some(d) => {
                proof {
                    crate::search::lemma_first_hit_some(doc_hits(before, bus, date_view));
                }
                self.seat_availability.set(d, record);
                proof {
                    let after = self.seat_availability@;
                    assert forall|b: ObjectId, t: Seq<char>|
                        doc_hits(after, b, t) == doc_hits(before, b, t) by {
                        assert(doc_hits(before, bus, date_view)[d as int]);
                        assert(doc_hits(after, b, t) =~= doc_hits(before, b, t));
                    }
                    assert forall|b: ObjectId, t: Seq<char>| !(b == bus && t == date_view) implies #[trigger] self.seats_of(b, t) == old(self).seats_of(b, t) by {
                        assert(doc_hits(after, b, t) == doc_hits(before, b, t));
                        let hit = first_hit(doc_hits(before, b, t));
                        if hit is Some {
                            crate::search::lemma_first_hit_some(doc_hits(before, b, t));
                            assert(doc_hits(before, b, t)[hit->Some_0]);
                            assert(hit->Some_0 != d);
                        }
                    }
                    assert(doc_hits(after, bus, date_view) == doc_hits(before, bus, date_view));
                }
            },
            None => {
                self.seat_availability.push(record);
                proof {
                    let after = self.seat_availability@;
                    assert forall|b: ObjectId, t: Seq<char>| !(b == bus && t == date_view) implies #[trigger] self.seats_of(b, t) == old(self).seats_of(b, t) by {
                        assert(doc_hits(after, b, t) =~= doc_hits(before, b, t).push(false));
                        lemma_first_hit_push_miss(doc_hits(before, b, t));
                        let hit = first_hit(doc_hits(before, b, t));
                        if hit is Some {
                            crate::search::lemma_first_hit_some(doc_hits(before, b, t));
                        }
                    }
                    assert(doc_hits(after, bus, date_view) =~= doc_hits(before, bus, date_view).push(true));
                    lemma_first_hit_push_hit(doc_hits(before, bus, date_view));
                }
            },
        }
    }

    /// Reserves the seat if it is there and available, in one step: the
    /// outcome is decided by the seats of the bus on the date as they
    /// are, and only `Reserved` changes anything, namely the flag of that
    /// one seat. Seats that were not stored before are stored then, and
    /// only then.
    pub fn try_reserve(&mut self, bus: ObjectId, date: &str, seat: &str) -> (outcome: Result<
        ReserveOutcome,
        BookingError,
    >)
        ensures
            outcome == reserve_outcome(old(self).seats_of(bus, date@), seat@),
            final(self).same_records(*old(self)),
            final(self).same_seats_elsewhere(*old(self), bus, date@),
            final(self).seats_of(bus, date@) == seats_with(old(self).seats_of(bus, date@), seat@, false),
            !(outcome == Ok::<ReserveOutcome, BookingError>(ReserveOutcome::Reserved)) ==> *final(self)
                == *old(self),
            outcome == Ok::<ReserveOutcome, BookingError>(ReserveOutcome::Reserved)
                ==> final(self).stored_seats(bus, date@) is Some,
    {
        let date_text = date.to_owned();
        let seat_text = seat.to_owned();
        let slot = find_doc(&self.seat_availability, bus, &date_text);
        let seats = match slot {
            Some(d) => duplicate_seats(&self.seat_availability[d].seats),
            None => match find_bus(&self.buses, bus) {
                Some(b) => derive_default_seats(self.buses[b].total_seats),
                None => {
                    return Err(BookingError::BusNotFound);
                },
            },
        };
        assert(self.seats_of(bus, date@) == Some(seat_views(seats@)));
        match find_seat(&seats, &seat_text) {
            None => Ok(ReserveOutcome::SeatNotFound),
            Some(i) => {
                if !seats[i].is_available {
                    assert(with_seat_flag(seat_views(seats@), i as int, false) =~= seat_views(seats@));
                    Ok(ReserveOutcome::SeatTaken)
                } else {
                    let taken = seats_with_flag(&seats, i, false);
                    self.put_seats(slot, bus, date_text, taken);
                    Ok(ReserveOutcome::Reserved)
                }
            },
        }
    }

    /// Makes the seat available again, in one step. Releasing a seat that
    /// is available succeeds and changes nothing that can be seen.
    pub fn release(&mut self, bus: ObjectId, date: &str, seat: &str) -> (outcome: ReleaseOutcome)
        ensures
            outcome == release_outcome(old(self).seats_of(bus, date@), seat@),
            final(self).same_records(*old(self)),
            final(self).same_seats_elsewhere(*old(self), bus, date@),
            final(self).seats_of(bus, date@) == seats_with(old(self).seats_of(bus, date@), seat@, true),
    {
        let date_text = date.to_owned();
        let seat_text = seat.to_owned();
        let slot = find_doc(&self.seat_availability, bus, &date_text);
        let seats = match slot {
            Some(d) => duplicate_seats(&self.seat_availability[d].seats),
            None => match find_bus(&self.buses, bus) {
                Some(b) => derive_default_seats(self.buses[b].total_seats),
                None => {
                    return ReleaseOutcome::SeatNotFound;
                },
            },
        };
        assert(self.seats_of(bus, date@) == Some(seat_views(seats@)));
        match find_seat(&seats, &seat_text) {
            None => ReleaseOutcome::SeatNotFound,
            Some(i) => {
                if seats[i].is_available {
                    assert(with_seat_flag(seat_views(seats@), i as int, true) =~= seat_views(seats@));
                } else {
                    let freed = seats_with_flag(&seats, i, true);
                    self.put_seats(slot, bus, date_text, freed);
                }
                ReleaseOutcome::Released
            },
        }
    }
}

} // verus!
