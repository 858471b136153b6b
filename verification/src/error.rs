use vstd::prelude::*;

verus! {

/// Every way an operation of the booking engine can fail.
#[derive(Clone, Copy, Debug, PartialEq, Eq, Structural)]
pub enum BookingError {
    /// A user or booking identifier is not 24 hexadecimal digits.
    InvalidId,
    /// The bus identifier does not resolve to a bus of the catalog.
    BusNotFound,
    /// The seat number is not one of the bus's seats.
    InvalidSeat,
    /// The seat is held by another confirmed booking.
    SeatAlreadyBooked,
    /// No booking has the given identifier.
    BookingNotFound,
    /// The booking belongs to another user.
    Unauthorized,
    /// The booking was cancelled before.
    AlreadyCancelled,
    /// The backing store could not take the write.
    StorageFailure,
}

impl BookingError {
    /// The stable, human-readable name of the error kind.
    pub fn message(&self) -> (text: &'static str)
        ensures
            text@ == error_text(*self),
    {
        match self {
            BookingError::InvalidId => "Invalid identifier",
            BookingError::BusNotFound => "Bus not found",
            BookingError::InvalidSeat => "Seat not found",
            BookingError::SeatAlreadyBooked => "Seat is already booked",
            BookingError::BookingNotFound => "Booking not found",
            BookingError::Unauthorized => "Unauthorized",
            BookingError::AlreadyCancelled => "Booking is already cancelled",
            BookingError::StorageFailure => "Storage failure",
        }
    }
}

/// The text that `BookingError::message` gives for each kind.
pub open spec fn error_text(e: BookingError) -> Seq<char> {
    match e {
        BookingError::InvalidId => "Invalid identifier"@,
        BookingError::BusNotFound => "Bus not found"@,
        BookingError::InvalidSeat => "Seat not found"@,
        BookingError::SeatAlreadyBooked => "Seat is already booked"@,
        BookingError::BookingNotFound => "Booking not found"@,
        BookingError::Unauthorized => "Unauthorized"@,
        BookingError::AlreadyCancelled => "Booking is already cancelled"@,
        BookingError::StorageFailure => "Storage failure"@,
    }
}

} // verus!
