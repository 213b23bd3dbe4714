//! The text that one refresh puts on the display: a label, the counter as four
//! decimal digits, and blanks up to the full width of the screen, held in a
//! fixed-capacity `ArrayString`.

use arrayvec::{ArrayString, CapacityError};
use vstd::prelude::*;
use vstd::utf8::{encode_utf8, is_ascii_chars, is_ascii_chars_encode_utf8};

verus! {

/// Number of characters the display shows, and the capacity of a [`TextBuffer`] in bytes.
pub const WIDTH: usize = 64;

/// Number of decimal digits the counter is shown with.
pub const DIGITS: usize = 4;

/// The error of `ArrayString`'s fallible pushes. Nothing is stated of its contents.
#[verifier::external_type_specification]
#[verifier::external_body]
#[verifier::reject_recursive_types(T)]
pub struct ExCapacityError<T>(CapacityError<T>);

/// A string of at most [`WIDTH`] bytes, stored inline in an `ArrayString<[u8; 64]>`.
///
/// Proofs do not look inside: all they know of a buffer is the text that
/// [`buffer_text`] names, as the functions below relate it to `ArrayString`'s methods.
#[verifier::external_body]
pub struct TextBuffer {
    inner: ArrayString<[u8; 64]>,
}

/// The characters a buffer holds, in order: those of `ArrayString::as_str`.
pub uninterp spec fn buffer_text(buffer: TextBuffer) -> Seq<char>;

impl View for TextBuffer {
    type V = Seq<char>;

    open spec fn view(&self) -> Seq<char> {
        buffer_text(*self)
    }
}

/// `ArrayString::new`: the result holds no text.
#[verifier::external_body]
fn array_string_new() -> (buffer: TextBuffer)
    ensures
        buffer_text(buffer) == Seq::<char>::empty(),
{
    TextBuffer { inner: ArrayString::new() }
}

/// `ArrayString::try_push_str`: the slice is appended whole when its UTF-8 bytes fit
/// into what is left of the 64 bytes, and otherwise the buffer is left as it was and
/// the error returned.
#[verifier::external_body]
fn array_string_try_push_str<'a>(buffer: &mut TextBuffer, s: &'a str) -> (r: Result<
    (),
    CapacityError<&'a str>,
>)
    ensures
        r is Ok <==> encode_utf8(buffer_text(*old(buffer))).len() + encode_utf8(s@).len() <= 64,
        r is Ok ==> buffer_text(*final(buffer)) == buffer_text(*old(buffer)) + s@,
        r is Err ==> buffer_text(*final(buffer)) == buffer_text(*old(buffer)),
{
    buffer.inner.try_push_str(s)
}

/// `ArrayString::try_push`: the character is appended when its UTF-8 bytes fit into
/// what is left of the 64 bytes, and otherwise the buffer is left as it was and the
/// error returned.
#[verifier::external_body]
fn array_string_try_push(buffer: &mut TextBuffer, c: char) -> (r: Result<(), CapacityError<char>>)
    ensures
        r is Ok <==> encode_utf8(buffer_text(*old(buffer))).len() + encode_utf8(seq![c]).len()
            <= 64,
        r is Ok ==> buffer_text(*final(buffer)) == buffer_text(*old(buffer)).push(c),
        r is Err ==> buffer_text(*final(buffer)) == buffer_text(*old(buffer)),
{
    buffer.inner.try_push(c)
}

/// `ArrayString::as_str`: the text of the buffer as a string slice.
#[verifier::external_body]
fn array_string_as_str(buffer: &TextBuffer) -> (s: &str)
    ensures
        s@ == buffer_text(*buffer),
{
    buffer.inner.as_str()
}

impl TextBuffer {
    /// An empty buffer.
    pub fn new() -> (buffer: TextBuffer)
        ensures
            buffer@.len() == 0,
    {
        array_string_new()
    }

    /// The text held.
    pub fn as_str(&self) -> (s: &str)
        ensures
            s@ == self@,
    {
        array_string_as_str(self)
    }
}

/// The character that shows the decimal digit `d`.
pub open spec fn digit(d: int) -> char {
    ('0' as u8 + d) as u8 as char
}

/// `value` in decimal, padded with leading zeros to [`DIGITS`] characters.
pub open spec fn zero_padded(value: u8) -> Seq<char> {
    seq![
        digit(value as int / 1000 % 10),
        digit(value as int / 100 % 10),
        digit(value as int / 10 % 10),
        digit(value as int % 10),
    ]
}

/// `n` blanks.
pub open spec fn blanks(n: nat) -> Seq<char> {
    Seq::new(n, |i: int| ' ')
}

/// The full screen text for a counter value: the label, the zero-padded value,
/// and blanks up to [`WIDTH`] characters.
pub open spec fn rendered(value: u8) -> Seq<char> {
    let shown = "value: "@ + zero_padded(value);
    shown + blanks((WIDTH - shown.len()) as nat)
}

fn digit_char(d: u8) -> (c: char)
    requires
        d < 10,
    ensures
        c == digit(d as int),
        '\0' <= c <= '\u{7f}',
{
    (48u8 + d) as char
}

/// Appends one ASCII character to a buffer that has room for it.
fn push_ascii(buf: &mut TextBuffer, c: char)
    requires
        '\0' <= c <= '\u{7f}',
        is_ascii_chars(old(buf)@),
        old(buf)@.len() < WIDTH,
    ensures
        final(buf)@ == old(buf)@.push(c),
        is_ascii_chars(final(buf)@),
{
    proof {
        is_ascii_chars_encode_utf8(buf@);
        is_ascii_chars_encode_utf8(seq![c]);
    }
    let _ = array_string_try_push(buf, c);
}

/// Appends an ASCII string slice to a buffer that has room for it.
fn push_ascii_str(buf: &mut TextBuffer, s: &str)
    requires
        is_ascii_chars(s@),
        is_ascii_chars(old(buf)@),
        old(buf)@.len() + s@.len() <= WIDTH,
    ensures
        final(buf)@ == old(buf)@ + s@,
        is_ascii_chars(final(buf)@),
{
    proof {
        is_ascii_chars_encode_utf8(buf@);
        is_ascii_chars_encode_utf8(s@);
    }
    let _ = array_string_try_push_str(buf, s);
}

/// Writes the screen text for `value` into an empty buffer.
///
/// The buffer must be empty: the text fills all of its [`WIDTH`] bytes.
pub fn format(buf: &mut TextBuffer, value: u8)
    requires
        old(buf)@.len() == 0,
    ensures
        final(buf)@ == rendered(value),
        final(buf)@.len() == WIDTH,
{
    proof {
        reveal_strlit("value: ");
    }
    push_ascii_str(buf, "value: ");
    push_ascii(buf, digit_char(value / 100 / 10 % 10));
    push_ascii(buf, digit_char(value / 100 % 10));
    push_ascii(buf, digit_char(value / 10 % 10));
    push_ascii(buf, digit_char(value % 10));
    let ghost shown = buf@;
    assert(shown == "value: "@ + zero_padded(value));
    let mut used: usize = 7 + DIGITS;
    while used < WIDTH
        invariant
            used <= WIDTH,
            shown.len() <= used,
            buf@ == shown + blanks((used - shown.len()) as nat),
            is_ascii_chars(buf@),
        decreases WIDTH - used,
    {
        push_ascii(buf, ' ');
        used = used + 1;
    }
}

/// The screen text for `value`, in a buffer of its own.
pub fn render(value: u8) -> (buf: TextBuffer)
    ensures
        buf@ == rendered(value),
        buf@.len() == WIDTH,
{
    let mut buf = TextBuffer::new();
    format(&mut buf, value);
    buf
}

} // verus!
