use vstd::prelude::*;
use vstd::string::*;

verus! {

/// One numbered seat of a bus on one travel date.
pub struct Seat {
    pub seat_number: String,
    pub is_available: bool,
}

/// What a seat is, as plain values.
pub struct SeatView {
    pub seat_number: Seq<char>,
    pub is_available: bool,
}

impl View for Seat {
    type V = SeatView;

    open spec fn view(&self) -> SeatView {
        SeatView { seat_number: self.seat_number@, is_available: self.is_available }
    }
}

impl Seat {
    /// A copy of the seat.
    pub fn duplicate(&self) -> (copy: Seat)
        ensures
            copy == *self,
    {
        Seat { seat_number: self.seat_number.clone(), is_available: self.is_available }
    }
}

/// The seats of a sequence, each as plain values.
pub open spec fn seat_views(seats: Seq<Seat>) -> Seq<SeatView> {
    Seq::new(seats.len(), |i: int| seats[i]@)
}

/// The character of a decimal digit.
pub open spec fn digit_char(d: nat) -> char {
    if d == 0 { '0' } else if d == 1 { '1' } else if d == 2 { '2' } else if d == 3 { '3' }
    else if d == 4 { '4' } else if d == 5 { '5' } else if d == 6 { '6' } else if d == 7 { '7' }
    else if d == 8 { '8' } else { '9' }
}

/// A number in decimal, without leading zeros.
pub open spec fn decimal(n: nat) -> Seq<char>
    decreases n,
{
    if n < 10 {
        seq![digit_char(n)]
    } else {
        decimal(n / 10).push(digit_char(n % 10))
    }
}

/// What a character is worth as a decimal digit; zero if it is none.
pub open spec fn digit_value(c: char) -> nat {
    if c == '1' { 1 } else if c == '2' { 2 } else if c == '3' { 3 } else if c == '4' { 4 }
    else if c == '5' { 5 } else if c == '6' { 6 } else if c == '7' { 7 } else if c == '8' { 8 }
    else if c == '9' { 9 } else { 0 }
}

/// The number that a sequence of decimal digits denotes.
pub open spec fn decimal_value(s: Seq<char>) -> nat
    decreases s.len(),
{
    if s.len() == 0 {
        0
    } else {
        decimal_value(s.drop_last()) * 10 + digit_value(s.last())
    }
}

/// Reading a number back from its decimal text gives the number.
pub proof fn lemma_decimal_value(n: nat)
    ensures
        decimal_value(decimal(n)) == n,
    decreases n,
{
    if n < 10 {
        let s = decimal(n);
        assert(s.drop_last() =~= Seq::<char>::empty());
        assert(s.last() == digit_char(n));
        assert(decimal_value(s.drop_last()) == 0);
    } else {
        lemma_decimal_value(n / 10);
        let s = decimal(n);
        assert(s.drop_last() =~= decimal(n / 10));
        assert(s.last() == digit_char(n % 10));
    }
}

/// Two numbers with the same decimal text are the same number.
pub proof fn lemma_decimal_injective(a: nat, b: nat)
    requires
        decimal(a) == decimal(b),
    ensures
        a == b,
{
    lemma_decimal_value(a);
    lemma_decimal_value(b);
}

fn digit_str(d: u8) -> (text: &'static str)
    requires
        d < 10,
    ensures
        text@ == seq![digit_char(d as nat)],
{
    proof {
        reveal_strlit("0"); reveal_strlit("1"); reveal_strlit("2"); reveal_strlit("3");
        reveal_strlit("4"); reveal_strlit("5"); reveal_strlit("6"); reveal_strlit("7");
        reveal_strlit("8"); reveal_strlit("9");
    }
    let text = if d == 0 { "0" } else if d == 1 { "1" } else if d == 2 { "2" } else if d == 3 { "3" }
    else if d == 4 { "4" } else if d == 5 { "5" } else if d == 6 { "6" } else if d == 7 { "7" }
    else if d == 8 { "8" } else { "9" };
    assert(text@ =~= seq![digit_char(d as nat)]);
    text
}

/// The number of a seat as it is written: in decimal.
pub fn seat_label(n: u32) -> (text: String)
    ensures
        text@ == decimal(n as nat),
    decreases n,
{
    if n < 10 {
        String::from_str(digit_str(n as u8))
    } else {
        let mut text = seat_label(n / 10);
        text.append(digit_str((n % 10) as u8));
        assert(text@ =~= decimal(n as nat));
        text
    }
}

/// The seats of a bus on a date for which nothing is stored: seats
/// "1" to `total_seats` in ascending order, every one available.
pub open spec fn default_seats(total_seats: int) -> Seq<SeatView> {
    Seq::new(
        if total_seats > 0 { total_seats as nat } else { 0 },
        |i: int| SeatView { seat_number: decimal((i + 1) as nat), is_available: true },
    )
}

/// Whether no seat number occurs twice.
pub open spec fn distinct_numbers(seats: Seq<SeatView>) -> bool {
    forall|i: int, j: int|
        0 <= i < seats.len() && 0 <= j < seats.len() && i != j
            ==> seats[i].seat_number != seats[j].seat_number
}

/// Whether the seats are numbered "1", "2", ... in order.
pub open spec fn numbered_in_order(seats: Seq<SeatView>) -> bool {
    forall|i: int| 0 <= i < seats.len() ==> (#[trigger] seats[i]).seat_number == decimal((i + 1) as nat)
}

/// Seats numbered in order have distinct numbers.
pub proof fn lemma_numbered_distinct(seats: Seq<SeatView>)
    requires
        numbered_in_order(seats),
    ensures
        distinct_numbers(seats),
{
    assert forall|i: int, j: int|
        0 <= i < seats.len() && 0 <= j < seats.len() && i != j
        implies seats[i].seat_number != seats[j].seat_number by {
        if seats[i].seat_number == seats[j].seat_number {
            lemma_decimal_injective((i + 1) as nat, (j + 1) as nat);
        }
    }
}

/// Builds the seats of a bus on a date for which nothing is stored. A bus
/// without seats, or with a negative count, has none.
pub fn derive_default_seats(total_seats: i32) -> (seats: Vec<Seat>)
    ensures
        seat_views(seats@) == default_seats(total_seats as int),
{
    let mut seats: Vec<Seat> = Vec::new();
    if total_seats <= 0 {
        assert(seat_views(seats@) =~= default_seats(total_seats as int));
        return seats;
    }
    let total: u32 = total_seats as u32;
    let mut i: u32 = 0;
    while i < total
        invariant
            i <= total,
            total == total_seats,
            seats@.len() == i,
            forall|k: int| 0 <= k < i ==> (#[trigger] seats@[k])@ == (SeatView {
                seat_number: decimal((k + 1) as nat),
                is_available: true,
            }),
        decreases total - i,
    {
        seats.push(Seat { seat_number: seat_label(i + 1), is_available: true });
        i = i + 1;
    }
    assert(seat_views(seats@) =~= default_seats(total_seats as int));
    seats
}

} // verus!
