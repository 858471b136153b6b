use vstd::prelude::*;
use vstd::string::*;
use crate::error::BookingError;

verus! {

/// A 96-bit document identifier, written as 24 hexadecimal digits.
#[derive(Clone, Copy, Debug, PartialEq, Eq, Hash, Structural)]
pub struct ObjectId {
    pub value: u128,
}

/// The number of identifiers: two to the power 96.
pub const OBJECT_ID_LIMIT: u128 = 0x1_0000_0000_0000_0000_0000_0000u128;

/// The number of hexadecimal digits in the text of an identifier.
pub const OBJECT_ID_DIGITS: usize = 24;

impl ObjectId {
    /// An identifier fits in 96 bits.
    pub open spec fn wf(self) -> bool {
        self.value < OBJECT_ID_LIMIT
    }

    /// The identifier as 24 lower-case hexadecimal digits.
    pub fn to_hex(&self) -> (text: String)
        ensures
            text@ == hex_text(self.value as nat, OBJECT_ID_DIGITS as nat),
    {
        hex_of(self.value, OBJECT_ID_DIGITS, false)
    }

    /// The identifier as 24 upper-case hexadecimal digits.
    pub fn to_hex_upper(&self) -> (text: String)
        ensures
            text@ == hex_text_in(self.value as nat, OBJECT_ID_DIGITS as nat, true),
    {
        hex_of(self.value, OBJECT_ID_DIGITS, true)
    }
}

/// What a character is worth as a hexadecimal digit, in either case.
pub open spec fn hex_digit_value(c: char) -> Option<u8> {
    let code = c as u32;
    if 48 <= code <= 57 {
        Some((code - 48) as u8)
    } else if 97 <= code <= 102 {
        Some((code - 87) as u8)
    } else if 65 <= code <= 70 {
        Some((code - 55) as u8)
    } else {
        None
    }
}

/// The number that a sequence of hexadecimal digits denotes, most
/// significant digit first. A character that is no digit counts as zero.
pub open spec fn hex_value(s: Seq<char>) -> nat
    decreases s.len(),
{
    if s.len() == 0 {
        0
    } else {
        hex_value(s.drop_last()) * 16 + match hex_digit_value(s.last()) {
            Some(d) => d as nat,
            None => 0,
        }
    }
}

/// Whether a text is exactly 24 hexadecimal digits.
pub open spec fn is_object_id_text(s: Seq<char>) -> bool {
    &&& s.len() == OBJECT_ID_DIGITS
    &&& forall|i: int| 0 <= i < s.len() ==> (#[trigger] hex_digit_value(s[i])) is Some
}

/// Sixteen to the power `n`.
pub open spec fn pow16(n: nat) -> nat
    decreases n,
{
    if n == 0 {
        1
    } else {
        16 * pow16((n - 1) as nat)
    }
}

proof fn lemma_pow16_step(n: nat)
    ensures
        pow16(n + 1) == 16 * pow16(n),
{
    reveal_with_fuel(pow16, 2);
}

proof fn lemma_pow16_monotonic(a: nat, b: nat)
    requires
        a <= b,
    ensures
        pow16(a) <= pow16(b),
    decreases b,
{
    if a < b {
        lemma_pow16_monotonic(a, (b - 1) as nat);
    }
}

proof fn lemma_pow16_24()
    ensures
        pow16(24) == OBJECT_ID_LIMIT,
{
    reveal_with_fuel(pow16, 13);
    assert(pow16(12) == 0x1_0000_0000_0000nat);
    assert(pow16(24) == 0x1_0000_0000_0000nat * pow16(12));
}

/// The digit that a character stands for, if it is a hexadecimal digit.
pub fn hex_digit(c: char) -> (digit: Option<u8>)
    ensures
        digit == hex_digit_value(c),
{
    let code: u32 = c as u32;
    if 48 <= code && code <= 57 {
        Some((code - 48) as u8)
    } else if 97 <= code && code <= 102 {
        Some((code - 87) as u8)
    } else if 65 <= code && code <= 70 {
        Some((code - 55) as u8)
    } else {
        None
    }
}

/// Reads an identifier from its text: `InvalidId` unless the text is
/// exactly 24 hexadecimal digits, else the number they denote.
pub fn parse_object_id(id: &str) -> (parsed: Result<ObjectId, BookingError>)
    ensures
        parsed is Ok <==> is_object_id_text(id@),
        parsed is Err ==> parsed == Err::<ObjectId, BookingError>(BookingError::InvalidId),
        parsed is Ok ==> parsed->Ok_0.value == hex_value(id@) && parsed->Ok_0.wf(),
{
    if id.unicode_len() != OBJECT_ID_DIGITS {
        return Err(BookingError::InvalidId);
    }
    let mut value: u128 = 0;
    let mut i: usize = 0;
    while i < OBJECT_ID_DIGITS
        invariant
            i <= OBJECT_ID_DIGITS,
            id@.len() == OBJECT_ID_DIGITS,
            value == hex_value(id@.take(i as int)),
            value < pow16(i as nat),
            forall|j: int| 0 <= j < i ==> (#[trigger] hex_digit_value(id@[j])) is Some,
        decreases OBJECT_ID_DIGITS - i,
    {
        let c = id.get_char(i);
        match hex_digit(c) {
            None => {
                return Err(BookingError::InvalidId);
            },
            Some(d) => {
                proof {
                    lemma_pow16_monotonic(i as nat, 23);
                    lemma_pow16_step(23);
                    lemma_pow16_step(i as nat);
                    lemma_pow16_24();
                    assert(id@.take(i + 1).drop_last() =~= id@.take(i as int));
                    assert(id@.take(i + 1).last() == c);
                }
                value = value * 16 + d as u128;
                i = i + 1;
            },
        }
    }
    proof {
        lemma_pow16_24();
        assert(id@.take(i as int) =~= id@);
    }
    Ok(ObjectId { value })
}

/// The character of a hexadecimal digit, in lower or in upper case.
pub open spec fn hex_char(d: nat, upper: bool) -> char {
    if d == 0 { '0' } else if d == 1 { '1' } else if d == 2 { '2' } else if d == 3 { '3' }
    else if d == 4 { '4' } else if d == 5 { '5' } else if d == 6 { '6' } else if d == 7 { '7' }
    else if d == 8 { '8' } else if d == 9 { '9' }
    else if d == 10 { if upper { 'A' } else { 'a' } }
    else if d == 11 { if upper { 'B' } else { 'b' } }
    else if d == 12 { if upper { 'C' } else { 'c' } }
    else if d == 13 { if upper { 'D' } else { 'd' } }
    else if d == 14 { if upper { 'E' } else { 'e' } }
    else { if upper { 'F' } else { 'f' } }
}

/// The last `width` hexadecimal digits of `v`, most significant first,
/// in lower or in upper case.
pub open spec fn hex_text_in(v: nat, width: nat, upper: bool) -> Seq<char>
    decreases width,
{
    if width == 0 {
        Seq::empty()
    } else {
        hex_text_in(v / 16, (width - 1) as nat, upper).push(hex_char(v % 16, upper))
    }
}

/// The last `width` hexadecimal digits of `v`, most significant first,
/// in lower case.
pub open spec fn hex_text(v: nat, width: nat) -> Seq<char> {
    hex_text_in(v, width, false)
}

/// Reading the digits of a number back gives the number, in either
/// case, as long as the number fits in that many digits.
pub proof fn lemma_hex_round_trip(v: nat, width: nat, upper: bool)
    requires
        v < pow16(width),
    ensures
        hex_text_in(v, width, upper).len() == width,
        forall|i: int|
            0 <= i < width ==> (#[trigger] hex_digit_value(hex_text_in(v, width, upper)[i])) is Some,
        hex_value(hex_text_in(v, width, upper)) == v,
    decreases width,
{
    if width > 0 {
        let head = hex_text_in(v / 16, (width - 1) as nat, upper);
        let text = hex_text_in(v, width, upper);
        let d = v % 16;
        assert(v / 16 < pow16((width - 1) as nat));
        lemma_hex_round_trip(v / 16, (width - 1) as nat, upper);
        assert(text.drop_last() =~= head);
        assert(text.last() == hex_char(d, upper));
        assert(hex_digit_value(hex_char(d, upper)) == Some(d as u8));
        assert forall|i: int| 0 <= i < width implies (#[trigger] hex_digit_value(text[i])) is Some by {
            if i < width - 1 {
                assert(text[i] == head[i]);
            }
        }
    }
}

/// The text of an identifier is read back as that identifier.
pub proof fn law_object_id_text_round_trip(id: ObjectId)
    requires
        id.wf(),
    ensures
        is_object_id_text(hex_text(id.value as nat, OBJECT_ID_DIGITS as nat)),
        hex_value(hex_text(id.value as nat, OBJECT_ID_DIGITS as nat)) == id.value,
        is_object_id_text(hex_text_in(id.value as nat, OBJECT_ID_DIGITS as nat, true)),
        hex_value(hex_text_in(id.value as nat, OBJECT_ID_DIGITS as nat, true)) == id.value,
{
    lemma_pow16_24();
    lemma_hex_round_trip(id.value as nat, 24, false);
    lemma_hex_round_trip(id.value as nat, 24, true);
}

/// Whether every character is a hexadecimal digit, its letters in the
/// given case.
pub open spec fn is_hex_in_case(s: Seq<char>, upper: bool) -> bool {
    forall|i: int|
        0 <= i < s.len() ==> match #[trigger] hex_digit_value(s[i]) {
            Some(d) => hex_char(d as nat, upper) == s[i],
            None => false,
        }
}

/// Writing the number that digits of one case denote, in as many digits
/// and in that case, gives the digits back.
pub proof fn lemma_hex_text_of_value(s: Seq<char>, upper: bool)
    requires
        is_hex_in_case(s, upper),
    ensures
        hex_value(s) < pow16(s.len()),
        hex_text_in(hex_value(s), s.len(), upper) == s,
    decreases s.len(),
{
    if s.len() > 0 {
        let head = s.drop_last();
        assert(is_hex_in_case(head, upper)) by {
            assert forall|i: int| 0 <= i < head.len() implies match #[trigger] hex_digit_value(head[i]) {
                Some(d) => hex_char(d as nat, upper) == head[i],
                None => false,
            } by {
                assert(head[i] == s[i]);
                assert(hex_digit_value(s[i]) is Some);
            }
        }
        lemma_hex_text_of_value(head, upper);
        assert(hex_digit_value(s[s.len() - 1]) is Some);
        let d = hex_digit_value(s.last())->Some_0 as nat;
        let v = hex_value(s);
        assert(d < 16);
        assert(v == hex_value(head) * 16 + d);
        assert(v / 16 == hex_value(head));
        assert(v % 16 == d);
        assert(hex_text_in(v, s.len(), upper) =~= s);
    } else {
        assert(hex_text_in(hex_value(s), s.len(), upper) =~= s);
    }
}

/// A text of 24 hexadecimal digits without upper-case letters is the
/// text of the identifier that it is read as.
pub proof fn law_object_id_value_round_trip(s: Seq<char>)
    requires
        is_object_id_text(s),
        is_hex_in_case(s, false),
    ensures
        hex_value(s) < OBJECT_ID_LIMIT,
        hex_text(hex_value(s), OBJECT_ID_DIGITS as nat) == s,
{
    lemma_pow16_24();
    lemma_hex_text_of_value(s, false);
}

fn hex_char_str(d: u8, upper: bool) -> (text: &'static str)
    requires
        d < 16,
    ensures
        text@ == seq![hex_char(d as nat, upper)],
{
    proof {
        reveal_strlit("0"); reveal_strlit("1"); reveal_strlit("2"); reveal_strlit("3");
        reveal_strlit("4"); reveal_strlit("5"); reveal_strlit("6"); reveal_strlit("7");
        reveal_strlit("8"); reveal_strlit("9"); reveal_strlit("a"); reveal_strlit("b");
        reveal_strlit("c"); reveal_strlit("d"); reveal_strlit("e"); reveal_strlit("f");
        reveal_strlit("A"); reveal_strlit("B"); reveal_strlit("C"); reveal_strlit("D");
        reveal_strlit("E"); reveal_strlit("F");
    }
    let text = if d == 0 { "0" } else if d == 1 { "1" } else if d == 2 { "2" } else if d == 3 { "3" }
    else if d == 4 { "4" } else if d == 5 { "5" } else if d == 6 { "6" } else if d == 7 { "7" }
    else if d == 8 { "8" } else if d == 9 { "9" }
    else if d == 10 { if upper { "A" } else { "a" } }
    else if d == 11 { if upper { "B" } else { "b" } }
    else if d == 12 { if upper { "C" } else { "c" } }
    else if d == 13 { if upper { "D" } else { "d" } }
    else if d == 14 { if upper { "E" } else { "e" } }
    else { if upper { "F" } else { "f" } };
    assert(text@ =~= seq![hex_char(d as nat, upper)]);
    text
}

fn hex_of(v: u128, width: usize, upper: bool) -> (text: String)
    ensures
        text@ == hex_text_in(v as nat, width as nat, upper),
    decreases width,
{
    if width == 0 {
        String::new()
    } else {
        let mut text = hex_of(v / 16, width - 1, upper);
        let digit = hex_char_str((v % 16) as u8, upper);
        text.append(digit);
        assert(text@ =~= hex_text_in(v as nat, width as nat, upper));
        text
    }
}

} // verus!
