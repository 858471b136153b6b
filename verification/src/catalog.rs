use vstd::prelude::*;
use crate::db::{bus_hits, seat_flag, seat_hits, seat_index, MongoDB};
use crate::models::{Bus, BusView, Route};
use crate::oid::ObjectId;
use crate::seats::default_seats;

verus! {

/// The number of buses that a fresh catalog is seeded with.
pub const SAMPLE_BUSES: usize = 10;

/// A bus as plain values; its identifier is its position in the catalog.
pub open spec fn bus_view(
    i: int,
    bus_number: Seq<char>,
    bus_type: Seq<char>,
    total_seats: int,
    from: Seq<char>,
    to: Seq<char>,
    departure_time: Seq<char>,
    arrival_time: Seq<char>,
    price: nat,
) -> BusView {
    BusView {
        id: Some(ObjectId { value: i as u128 }),
        bus_number,
        bus_type,
        total_seats,
        from,
        to,
        departure_time,
        arrival_time,
        price,
    }
}

/// The bus that a fresh catalog holds at position `i`.
pub open spec fn sample_bus_view(i: int) -> BusView {
    if i == 0 {
        bus_view(i, "Easy Coach - KCH 123A"@, "Standard"@, 44, "Nairobi"@, "Kisumu"@, "08:15 AM"@, "04:30 PM"@, 1450)
    } else if i == 1 {
        bus_view(i, "Mash East Africa - KDA 456B"@, "VIP Oxygen"@, 36, "Nairobi"@, "Mombasa"@, "10:00 PM"@, "06:00 AM"@, 2200)
    } else if i == 2 {
        bus_view(i, "Tahmeed - KDB 789C"@, "Luxury Coach"@, 32, "Mombasa"@, "Nairobi"@, "09:00 AM"@, "05:00 PM"@, 1600)
    } else if i == 3 {
        bus_view(i, "Dreamline - KDC 012D"@, "Executive"@, 40, "Nairobi"@, "Eldoret"@, "07:30 AM"@, "01:30 PM"@, 1300)
    } else if i == 4 {
        bus_view(i, "Guardian Angel - KDD 345E"@, "Standard"@, 52, "Nairobi"@, "Busia"@, "09:00 PM"@, "05:00 AM"@, 1500)
    } else if i == 5 {
        bus_view(i, "Modern Coast - KDE 678F"@, "VIP"@, 28, "Nairobi"@, "Mombasa"@, "08:00 AM"@, "04:30 PM"@, 2500)
    } else if i == 6 {
        bus_view(i, "Super Metro - KDF 901G"@, "Semi-Luxury"@, 48, "Nairobi"@, "Nakuru"@, "06:00 AM"@, "09:00 AM"@, 800)
    } else if i == 7 {
        bus_view(i, "Transline Galaxy - KDG 234H"@, "Standard"@, 14, "Nairobi"@, "Kisii"@, "10:00 AM"@, "04:00 PM"@, 1200)
    } else if i == 8 {
        bus_view(i, "Spanish - KDH 567I"@, "Standard Coach"@, 52, "Nairobi"@, "Kakamega"@, "08:30 PM"@, "04:30 AM"@, 1400)
    } else {
        bus_view(i, "Mash East Africa - KDI 890J"@, "Standard"@, 52, "Nairobi"@, "Malindi"@, "07:00 PM"@, "05:00 AM"@, 1800)
    }
}

fn make_bus(
    id: ObjectId,
    bus_number: &str,
    bus_type: &str,
    total_seats: i32,
    from: &str,
    to: &str,
    departure_time: &str,
    arrival_time: &str,
    price: u64,
) -> (bus: Bus)
    ensures
        bus@ == (BusView {
            id: Some(id),
            bus_number: bus_number@,
            bus_type: bus_type@,
            total_seats: total_seats as int,
            from: from@,
            to: to@,
            departure_time: departure_time@,
            arrival_time: arrival_time@,
            price: price as nat,
        }),
{
    Bus {
        id: Some(id),
        bus_number: bus_number.to_owned(),
        bus_type: bus_type.to_owned(),
        total_seats,
        route: Route {
            from: from.to_owned(),
            to: to.to_owned(),
            departure_time: departure_time.to_owned(),
            arrival_time: arrival_time.to_owned(),
            price,
        },
    }
}

/// The bus that a fresh catalog holds at position `i`.
pub fn sample_bus(i: usize) -> (bus: Bus)
    requires
        i < SAMPLE_BUSES,
    ensures
        bus@ == sample_bus_view(i as int),
{
    let id = ObjectId { value: i as u128 };
    if i == 0 {
        make_bus(id, "Easy Coach - KCH 123A", "Standard", 44, "Nairobi", "Kisumu", "08:15 AM", "04:30 PM", 1450)
    } else if i == 1 {
        make_bus(id, "Mash East Africa - KDA 456B", "VIP Oxygen", 36, "Nairobi", "Mombasa", "10:00 PM", "06:00 AM", 2200)
    } else if i == 2 {
        make_bus(id, "Tahmeed - KDB 789C", "Luxury Coach", 32, "Mombasa", "Nairobi", "09:00 AM", "05:00 PM", 1600)
    } else if i == 3 {
        make_bus(id, "Dreamline - KDC 012D", "Executive", 40, "Nairobi", "Eldoret", "07:30 AM", "01:30 PM", 1300)
    } else if i == 4 {
        make_bus(id, "Guardian Angel - KDD 345E", "Standard", 52, "Nairobi", "Busia", "09:00 PM", "05:00 AM", 1500)
    } else if i == 5 {
        make_bus(id, "Modern Coast - KDE 678F", "VIP", 28, "Nairobi", "Mombasa", "08:00 AM", "04:30 PM", 2500)
    } else if i == 6 {
        make_bus(id, "Super Metro - KDF 901G", "Semi-Luxury", 48, "Nairobi", "Nakuru", "06:00 AM", "09:00 AM", 800)
    } else if i == 7 {
        make_bus(id, "Transline Galaxy - KDG 234H", "Standard", 14, "Nairobi", "Kisii", "10:00 AM", "04:00 PM", 1200)
    } else if i == 8 {
        make_bus(id, "Spanish - KDH 567I", "Standard Coach", 52, "Nairobi", "Kakamega", "08:30 PM", "04:30 AM", 1400)
    } else {
        make_bus(id, "Mash East Africa - KDI 890J", "Standard", 52, "Nairobi", "Malindi", "07:00 PM", "05:00 AM", 1800)
    }
}

/// Whether the catalog is the ten sample buses.
pub open spec fn is_sample_catalog(buses: Seq<Bus>) -> bool {
    &&& buses.len() == SAMPLE_BUSES
    &&& forall|i: int| 0 <= i < buses.len() ==> (#[trigger] buses[i])@ == sample_bus_view(i)
}

/// In the seats that follow from a seat count, no seat is taken.
pub proof fn lemma_default_seats_free(total_seats: int, number: Seq<char>)
    ensures
        seat_flag(Some(default_seats(total_seats)), number) != Some(false),
{
    let s = default_seats(total_seats);
    if seat_index(s, number) is Some {
        crate::search::lemma_first_hit_some(seat_hits(s, number));
    }
}

impl MongoDB {
    /// Whether seeding fills the catalog: it does where the catalog is
    /// empty, or where `force` says to start over.
    pub open spec fn seeds(self, force: bool) -> bool {
        force || self.buses@.len() == 0
    }

    /// Fills an empty catalog with the ten sample buses; with `force`,
    /// empties the catalog first. A catalog that has buses is otherwise
    /// left as it is. Nothing but the catalog changes. A consistent
    /// database stays consistent unless seeding replaces a catalog of
    /// other buses.
    pub fn seed_data(&mut self, force: bool)
        ensures
            final(self).db_name == old(self).db_name,
            final(self).users == old(self).users,
            final(self).seat_availability == old(self).seat_availability,
            final(self).bookings == old(self).bookings,
            final(self).max_bookings == old(self).max_bookings,
            old(self).seeds(force) ==> is_sample_catalog(final(self).buses@),
            !old(self).seeds(force) ==> *final(self) == *old(self),
            old(self).consistent() && (old(self).buses@.len() == 0 || is_sample_catalog(old(self).buses@))
                ==> final(self).consistent(),
    {
        if force {
            self.buses = Vec::new();
        }
        if self.buses.len() != 0 {
            return ;
        }
        let mut i: usize = 0;
        while i < SAMPLE_BUSES
            invariant
                i <= SAMPLE_BUSES,
                self.buses@.len() == i,
                forall|k: int| 0 <= k < i ==> (#[trigger] self.buses@[k])@ == sample_bus_view(k),
                self.db_name == old(self).db_name,
                self.users == old(self).users,
                self.seat_availability == old(self).seat_availability,
                self.bookings == old(self).bookings,
                self.max_bookings == old(self).max_bookings,
            decreases SAMPLE_BUSES - i,
        {
            self.buses.push(sample_bus(i));
            i = i + 1;
        }
        proof {
            if old(self).consistent() && is_sample_catalog(old(self).buses@) {
                let before = *old(self);
                let after = *self;
                assert forall|bus: ObjectId| bus_hits(after.buses@, bus) == bus_hits(before.buses@, bus) by {
                    assert forall|i: int| 0 <= i < after.buses@.len() implies after.buses@[i].id
                        == before.buses@[i].id by {
                        assert(after.buses@[i]@ == before.buses@[i]@);
                    }
                    assert(bus_hits(after.buses@, bus) =~= bus_hits(before.buses@, bus));
                }
                assert forall|bus: ObjectId| #[trigger] after.bus_of(bus) is Some implies before.bus_of(bus) is Some
                    && after.bus_of(bus)->Some_0.total_seats == before.bus_of(bus)->Some_0.total_seats by {
                    assert(bus_hits(after.buses@, bus) == bus_hits(before.buses@, bus));
                    crate::search::lemma_first_hit_some(bus_hits(after.buses@, bus));
                    let i = crate::search::first_hit(bus_hits(after.buses@, bus))->Some_0;
                    assert(after.buses@[i]@ == before.buses@[i]@);
                }
                assert forall|bus: ObjectId| #[trigger] after.bus_of(bus) is None implies before.bus_of(bus) is None by {
                    assert(bus_hits(after.buses@, bus) == bus_hits(before.buses@, bus));
                }
                assert forall|bus: ObjectId, date: Seq<char>| #[trigger] after.seats_of(bus, date) == before.seats_of(bus, date) by {
                    assert(after.stored_seats(bus, date) == before.stored_seats(bus, date));
                    assert(after.bus_of(bus) is Some <==> before.bus_of(bus) is Some);
                }
                crate::laws::lemma_same_view_consistent(before, after);
            } else if old(self).consistent() && old(self).buses@.len() == 0 {
                let before = *old(self);
                let after = *self;
                assert forall|bus: ObjectId, date: Seq<char>| before.seats_of(bus, date) is None by {
                    crate::search::lemma_first_hit_absent(bus_hits(before.buses@, bus));
                    if before.seats_of(bus, date) is Some {
                        assert(before.bus_of(bus) is Some);
                    }
                }
                assert forall|bus: ObjectId, date: Seq<char>, seat: Seq<char>| #[trigger]
                    after.flag_at(bus, date, seat) != Some(false) by {
                    assert(before.seats_of(bus, date) is None);
                    assert(after.stored_seats(bus, date) is None);
                    if after.bus_of(bus) is Some {
                        lemma_default_seats_free(after.bus_of(bus)->Some_0.total_seats as int, seat);
                    }
                }
                assert forall|j: int| 0 <= j < after.bookings@.len() implies !(#[trigger] after.bookings@[j]).is_confirmed() by {
                    let b = before.bookings@[j];
                    if b.is_confirmed() {
                        assert(before.flag_at(b.bus_id, b.travel_date@, b.seat_number@) == Some(false));
                        assert(before.seats_of(b.bus_id, b.travel_date@) is None);
                    }
                }
                assert(after.seats_follow_catalog()) by {
                    assert forall|bus: ObjectId, date: Seq<char>| (#[trigger] after.seats_of(bus, date)) is Some implies after.bus_of(
                        bus,
                    ) is Some && crate::laws::same_numbers(
                        after.seats_of(bus, date)->Some_0,
                        default_seats(after.bus_of(bus)->Some_0.total_seats as int),
                    ) by {
                        assert(before.seats_of(bus, date) is None);
                        assert(after.stored_seats(bus, date) is None);
                    }
                }
            }
        }
    }
}

} // verus!
