//! Lines of text in a buffer of fixed size.
//!
//! A line is a `heapless::String` of 64 bytes. It is filled through three
//! calls into that crate, whose contracts are taken on trust; everything
//! built on them is proved.

use vstd::prelude::*;

verus! {

/// `heapless::String`: text in a buffer of `N` bytes that never grows.
#[verifier::external_type_specification]
#[verifier::external_body]
pub struct ExBoundedString<const N: usize>(heapless::String<N>);

/// Number of bytes that a line of text can hold.
pub const LINE_BYTES: usize = 64;

/// The characters held by a line.
pub uninterp spec fn line_text(line: heapless::String<64>) -> Seq<char>;

/// Number of bytes that a character takes in UTF-8.
pub open spec fn utf8_width(c: char) -> nat {
    if (c as u32) < 0x80 {
        1
    } else if (c as u32) < 0x800 {
        2
    } else if (c as u32) < 0x1_0000 {
        3
    } else {
        4
    }
}

/// Number of bytes that a text takes in UTF-8.
pub open spec fn utf8_len(text: Seq<char>) -> nat
    decreases text.len(),
{
    if text.len() == 0 {
        0
    } else {
        utf8_len(text.drop_last()) + utf8_width(text.last())
    }
}

/// `heapless::String::new`: a line that holds nothing.
#[verifier::external_body]
fn empty_line() -> (line: heapless::String<64>)
    ensures
        line_text(line) == Seq::<char>::empty(),
{
    heapless::String::new()
}

/// `heapless::String::push_str`: appends `piece` if the bytes of the line and
/// of the piece together fit the buffer, and otherwise fails and leaves the
/// line as it was.
#[verifier::external_body]
fn push_piece(line: &mut heapless::String<64>, piece: &str) -> (pushed: Result<(), ()>)
    ensures
        pushed is Ok <==> utf8_len(line_text(*old(line))) + utf8_len(piece@) <= LINE_BYTES,
        pushed is Ok ==> line_text(*final(line)) == line_text(*old(line)) + piece@,
        pushed is Err ==> line_text(*final(line)) == line_text(*old(line)),
{
    line.push_str(piece)
}

/// `heapless::String::push`: appends `c` if the bytes of the line and of the
/// character together fit the buffer, and otherwise fails and leaves the line
/// as it was.
#[verifier::external_body]
fn push_char(line: &mut heapless::String<64>, c: char) -> (pushed: Result<(), ()>)
    ensures
        pushed is Ok <==> utf8_len(line_text(*old(line))) + utf8_width(c) <= LINE_BYTES,
        pushed is Ok ==> line_text(*final(line)) == line_text(*old(line)).push(c),
        pushed is Err ==> line_text(*final(line)) == line_text(*old(line)),
{
    line.push(c)
}

/// The character of a decimal digit.
pub open spec fn digit_char(digit: int) -> char
    recommends
        0 <= digit <= 9,
{
    (48 + digit) as char
}

/// The decimal digits of a natural number, without leading zeros.
pub open spec fn natural_text(n: nat) -> Seq<char>
    decreases n,
{
    if n < 10 {
        seq![digit_char(n as int)]
    } else {
        natural_text(n / 10).push(digit_char((n % 10) as int))
    }
}

/// The decimal text of an integer: a minus sign if it is negative, then the
/// digits of its magnitude.
pub open spec fn decimal_text(value: int) -> Seq<char> {
    if value < 0 {
        seq!['-'] + natural_text((-value) as nat)
    } else {
        natural_text(value as nat)
    }
}

/// The byte length of a text is the sum of the byte lengths of its parts.
pub proof fn lemma_utf8_len_concat(a: Seq<char>, b: Seq<char>)
    ensures
        utf8_len(a + b) == utf8_len(a) + utf8_len(b),
    decreases b.len(),
{
    if b.len() == 0 {
        assert(a + b =~= a);
    } else {
        lemma_utf8_len_concat(a, b.drop_last());
        assert((a + b).drop_last() =~= a + b.drop_last());
    }
}

/// A text of ASCII characters takes one byte for each character.
pub proof fn lemma_utf8_len_ascii(text: Seq<char>)
    requires
        forall|i: int| 0 <= i < text.len() ==> (#[trigger] text[i] as u32) < 0x80,
    ensures
        utf8_len(text) == text.len(),
    decreases text.len(),
{
    if text.len() > 0 {
        lemma_utf8_len_ascii(text.drop_last());
    }
}

/// A digit character is the ASCII character of its digit.
pub proof fn lemma_digit_char_is_ascii(digit: int)
    requires
        0 <= digit <= 9,
    ensures
        digit_char(digit) as u32 == 48 + digit,
        utf8_width(digit_char(digit)) == 1,
{
    let code = (48 + digit) as u32;
    assert(code as char as u32 == code);
}

/// The digits of a natural number are ASCII, and a number below `10^k` has
/// at most `k` of them, for `k` up to ten.
pub proof fn lemma_natural_text_shape(n: nat)
    ensures
        natural_text(n).len() >= 1,
        utf8_len(natural_text(n)) == natural_text(n).len(),
        n >= 10 ==> natural_text(n).len() == natural_text(n / 10).len() + 1,
        n < 10 ==> natural_text(n).len() == 1,
        n < 100 ==> natural_text(n).len() <= 2,
        n < 1_000 ==> natural_text(n).len() <= 3,
        n < 10_000 ==> natural_text(n).len() <= 4,
        n < 100_000 ==> natural_text(n).len() <= 5,
        n < 1_000_000 ==> natural_text(n).len() <= 6,
        n < 10_000_000 ==> natural_text(n).len() <= 7,
        n < 100_000_000 ==> natural_text(n).len() <= 8,
        n < 1_000_000_000 ==> natural_text(n).len() <= 9,
        n < 10_000_000_000 ==> natural_text(n).len() <= 10,
    decreases n,
{
    lemma_digit_char_is_ascii((n % 10) as int);
    assert(natural_text(n).last() == digit_char((n % 10) as int));
    if n >= 10 {
        lemma_natural_text_shape(n / 10);
        assert(natural_text(n).drop_last() =~= natural_text(n / 10));
    } else {
        assert(natural_text(n).drop_last() =~= Seq::<char>::empty());
        assert(utf8_len(Seq::<char>::empty()) == 0);
    }
}

/// Appends the decimal digits of `n`.
fn push_natural(line: &mut heapless::String<64>, n: u32)
    requires
        utf8_len(line_text(*old(line))) + natural_text(n as nat).len() <= 64,
    ensures
        line_text(*final(line)) == line_text(*old(line)) + natural_text(n as nat),
    decreases n,
{
    proof {
        lemma_natural_text_shape(n as nat);
    }
    if n >= 10 {
        push_natural(line, n / 10);
    }
    let digit: u8 = (n % 10) as u8;
    proof {
        if n >= 10 {
            lemma_natural_text_shape((n / 10) as nat);
            lemma_utf8_len_concat(line_text(*old(line)), natural_text((n / 10) as nat));
        }
    }
    let pushed = push_char(line, (48u8 + digit) as char);
    assert(pushed is Ok);
    assert(line_text(*line) =~= line_text(*old(line)) + natural_text(n as nat));
}

/// Appends the decimal text of `value`.
fn push_decimal(line: &mut heapless::String<64>, value: i32)
    requires
        utf8_len(line_text(*old(line))) + 11 <= 64,
    ensures
        line_text(*final(line)) == line_text(*old(line)) + decimal_text(value as int),
        decimal_text(value as int).len() <= 11,
        utf8_len(decimal_text(value as int)) == decimal_text(value as int).len(),
{
    if value < 0 {
        let magnitude: u32 = (-(value as i64)) as u32;
        proof {
            lemma_natural_text_shape(magnitude as nat);
            lemma_utf8_len_concat(seq!['-'], natural_text(magnitude as nat));
            lemma_utf8_len_ascii(seq!['-']);
            lemma_utf8_len_concat(line_text(*old(line)), seq!['-']);
        }
        let pushed = push_char(line, '-');
        assert(pushed is Ok);
        assert(line_text(*line) =~= line_text(*old(line)) + seq!['-']);
        push_natural(line, magnitude);
        assert(line_text(*line) =~= line_text(*old(line)) + decimal_text(value as int));
    } else {
        proof {
            lemma_natural_text_shape(value as nat);
        }
        push_natural(line, value as u32);
    }
}

/// The line that shows a temperature in whole degrees.
pub open spec fn temperature_text(degrees: int) -> Seq<char> {
    "Temperature: "@ + decimal_text(degrees) + "\u{b0} C"@
}

/// The line that shows a pressure on the displayed scale.
pub open spec fn pressure_text(kilopascals: int) -> Seq<char> {
    "Pressure: "@ + decimal_text(kilopascals) + " kPa"@
}

/// Writes the temperature line.
pub fn temperature_line(degrees: i32) -> (line: heapless::String<64>)
    ensures
        line_text(line) == temperature_text(degrees as int),
{
    let mut line = empty_line();
    proof {
        reveal_strlit("Temperature: ");
        reveal_strlit("\u{b0} C");
        lemma_utf8_len_ascii("Temperature: "@);
        assert(utf8_len(Seq::<char>::empty()) == 0);
    }
    let head = push_piece(&mut line, "Temperature: ");
    assert(head is Ok);
    assert(line_text(line) =~= "Temperature: "@);
    push_decimal(&mut line, degrees);
    proof {
        let tail = "\u{b0} C"@;
        lemma_utf8_len_concat("Temperature: "@, decimal_text(degrees as int));
        assert(tail =~= seq!['\u{b0}'] + seq![' ', 'C']);
        lemma_utf8_len_concat(seq!['\u{b0}'], seq![' ', 'C']);
        lemma_utf8_len_ascii(seq![' ', 'C']);
        assert(seq!['\u{b0}'].drop_last() =~= Seq::<char>::empty());
        assert(utf8_len(seq!['\u{b0}']) == 2);
    }
    let tail = push_piece(&mut line, "\u{b0} C");
    assert(tail is Ok);
    line
}

/// Writes the pressure line.
pub fn pressure_line(kilopascals: i32) -> (line: heapless::String<64>)
    ensures
        line_text(line) == pressure_text(kilopascals as int),
{
    let mut line = empty_line();
    proof {
        reveal_strlit("Pressure: ");
        reveal_strlit(" kPa");
        lemma_utf8_len_ascii("Pressure: "@);
        lemma_utf8_len_ascii(" kPa"@);
        assert(utf8_len(Seq::<char>::empty()) == 0);
    }
    let head = push_piece(&mut line, "Pressure: ");
    assert(head is Ok);
    assert(line_text(line) =~= "Pressure: "@);
    push_decimal(&mut line, kilopascals);
    proof {
        lemma_utf8_len_concat("Pressure: "@, decimal_text(kilopascals as int));
    }
    let tail = push_piece(&mut line, " kPa");
    assert(tail is Ok);
    line
}

} // verus!
