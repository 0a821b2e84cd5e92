//! Telling text from binary content, and counting the lines of a text.

use vstd::prelude::*;
use vstd::utf8::{decode_utf8, valid_utf8};
use crate::chars::chars_of;

verus! {

/// What decoding a whole buffer as UTF-8 gives: the text, and whether any
/// malformed sequence had to be replaced. The decoder first looks for a byte
/// order mark, and follows it where it finds one.
pub uninterp spec fn decoded(bytes: Seq<u8>) -> (Seq<char>, bool);

/// Whether a character is a letter or a digit, as Unicode has it.
pub uninterp spec fn alphanumeric(c: char) -> bool;

/// Whether a character is white space, as Unicode has it.
pub uninterp spec fn whitespace(c: char) -> bool;

/// Why the lines of a file could not be counted.
#[derive(Clone, Copy, Debug, PartialEq, Eq, Structural)]
pub enum ReadError {
    /// The content could not be read.
    Unreadable,
    /// The content is not valid UTF-8.
    NotText,
    /// The text has more lines than a `u64` can hold.
    TooLong,
}

/// Whether a buffer begins with the byte order mark of UTF-8.
pub open spec fn has_utf8_mark(bytes: Seq<u8>) -> bool {
    bytes.len() >= 3 && bytes[0] == 0xEF && bytes[1] == 0xBB && bytes[2] == 0xBF
}

/// The longest buffer that the decoder is handed: for any longer one its
/// size calculations could overflow.
pub open spec fn decode_limit() -> int {
    (usize::MAX / 4) as int
}

/// A character counts as printable where it is alphanumeric or white space.
pub open spec fn printable(c: char) -> bool {
    alphanumeric(c) || whitespace(c)
}

/// How many characters of a text are printable.
pub open spec fn printable_count(text: Seq<char>) -> nat
    decreases text.len(),
{
    if text.len() == 0 {
        0
    } else {
        printable_count(text.drop_last()) + if printable(text.last()) {
            1nat
        } else {
            0nat
        }
    }
}

/// Whether more than four fifths of `total` characters are printable. Of no
/// characters none is.
pub open spec fn mostly_printable(printable: nat, total: nat) -> bool {
    total > 0 && 5 * printable > 4 * total
}

/// The verdict on a decoded buffer: text where decoding met no error and more
/// than four fifths of the characters are printable.
pub open spec fn text_like(text: Seq<char>, had_errors: bool) -> bool {
    !had_errors && mostly_printable(printable_count(text), text.len())
}

/// The verdict on a buffer of bytes.
pub open spec fn is_text_content(bytes: Seq<u8>) -> bool {
    bytes.len() <= decode_limit() && text_like(decoded(bytes).0, decoded(bytes).1)
}

/// How many line separators a text holds.
pub open spec fn newline_count(text: Seq<char>) -> nat
    decreases text.len(),
{
    if text.len() == 0 {
        0
    } else {
        newline_count(text.drop_last()) + if text.last() == '\n' {
            1nat
        } else {
            0nat
        }
    }
}

/// The number of lines of a text: the segments that its line separators cut
/// it into, so one more than there are separators.
pub open spec fn line_count(text: Seq<char>) -> nat {
    newline_count(text) + 1
}

/// What counting the lines of a buffer of bytes gives.
pub open spec fn lines_of_bytes(bytes: Seq<u8>) -> Result<u64, ReadError> {
    if !valid_utf8(bytes) {
        Err(ReadError::NotText)
    } else if line_count(decode_utf8(bytes)) > u64::MAX {
        Err(ReadError::TooLong)
    } else {
        Ok(line_count(decode_utf8(bytes)) as u64)
    }
}

/// The threshold is strict: content of which exactly four fifths is
/// printable is not text.
pub proof fn lemma_boundary_is_binary(bytes: Seq<u8>)
    requires
        5 * printable_count(decoded(bytes).0) == 4 * decoded(bytes).0.len(),
    ensures
        !is_text_content(bytes),
{
}

/// Whether a count is above the threshold depends on the two numbers alone,
/// and at exactly four fifths it is not.
pub proof fn lemma_threshold_strict(printable: nat, total: nat)
    ensures
        5 * printable == 4 * total ==> !mostly_printable(printable, total),
        total == 0 ==> !mostly_printable(printable, total),
        total > 0 && 5 * printable > 4 * total ==> mostly_printable(printable, total),
{
}

/// A text without a line separator has one line, the empty text too.
pub proof fn lemma_line_count_least(text: Seq<char>)
    ensures
        line_count(text) >= 1,
        line_count(Seq::<char>::empty()) == 1,
{
}

/// Calls `encoding_rs::Encoding::decode` on `encoding_rs::UTF_8`, and hands
/// back the text and the error flag. The result is a function of the bytes
/// alone. Valid UTF-8 that begins with no byte order mark comes back as it
/// is, without an error. Buffers for which the decoder's size calculation
/// could overflow are left out.
#[verifier::external_body]
fn decode(bytes: &[u8]) -> (out: (String, bool))
    requires
        bytes@.len() <= decode_limit(),
    ensures
        (out.0@, out.1) == decoded(bytes@),
        valid_utf8(bytes@) && !has_utf8_mark(bytes@) ==> out.0@ == decode_utf8(bytes@) && !out.1,
{
    let (text, _, had_errors) = encoding_rs::UTF_8.decode(bytes);
    (text.into_owned(), had_errors)
}

/// Calls `char::is_alphanumeric`.
#[verifier::external_body]
fn is_alphanumeric(c: char) -> (r: bool)
    ensures
        r == alphanumeric(c),
{
    c.is_alphanumeric()
}

/// Calls `char::is_whitespace`.
#[verifier::external_body]
fn is_whitespace(c: char) -> (r: bool)
    ensures
        r == whitespace(c),
{
    c.is_whitespace()
}

/// Calls `std::str::from_utf8`: the bytes as a string where they are valid
/// UTF-8, nothing where they are not.
#[verifier::external_body]
fn as_utf8(bytes: &[u8]) -> (text: Option<&str>)
    ensures
        text is Some == valid_utf8(bytes@),
        text matches Some(t) ==> t@ == decode_utf8(bytes@),
{
    std::str::from_utf8(bytes).ok()
}

/// Whether more than four fifths of `total` characters are printable.
pub fn is_mostly_printable(printable: usize, total: usize) -> (r: bool)
    ensures
        r == mostly_printable(printable as nat, total as nat),
{
    total > 0 && 5 * (printable as u128) > 4 * (total as u128)
}

/// Counts the printable characters of a text.
pub fn count_printable(text: &Vec<char>) -> (n: usize)
    ensures
        n == printable_count(text@),
{
    let mut n: usize = 0;
    let mut i: usize = 0;
    while i < text.len()
        invariant
            i <= text.len(),
            n <= i,
            n == printable_count(text@.take(i as int)),
        decreases text.len() - i,
    {
        assert(text@.take(i + 1).drop_last() =~= text@.take(i as int));
        if is_alphanumeric(text[i]) || is_whitespace(text[i]) {
            n = n + 1;
        }
        i = i + 1;
    }
    assert(text@.take(text@.len() as int) =~= text@);
    n
}

/// Classifies a decoded buffer: `text` is what decoding gave, `had_errors`
/// whether it met malformed input.
pub fn is_text_like(text: &str, had_errors: bool) -> (r: bool)
    ensures
        r == text_like(text@, had_errors),
{
    if had_errors {
        return false;
    }
    let chars = chars_of(text);
    let n = count_printable(&chars);
    is_mostly_printable(n, chars.len())
}

/// Decides whether the content of a file is text. Empty content is not, nor
/// is content that does not decode, nor content of which a fifth or more is
/// neither alphanumeric nor white space.
pub fn is_text(bytes: &[u8]) -> (r: bool)
    ensures
        r == is_text_content(bytes@),
        bytes@.len() <= decode_limit() && valid_utf8(bytes@) && !has_utf8_mark(bytes@) ==> r
            == text_like(decode_utf8(bytes@), false),
        bytes@.len() == 0 ==> !r,
{
    if bytes.len() > usize::MAX / 4 {
        return false;
    }
    let (text, had_errors) = decode(bytes);
    is_text_like(text.as_str(), had_errors)
}

/// Counts the lines of a text: one more than it has line separators.
pub fn count_text_lines(text: &str) -> (r: Result<u64, ReadError>)
    ensures
        r == if line_count(text@) > u64::MAX {
            Err::<u64, ReadError>(ReadError::TooLong)
        } else {
            Ok(line_count(text@) as u64)
        },
{
    let chars = chars_of(text);
    let mut n: u64 = 0;
    let mut i: usize = 0;
    while i < chars.len()
        invariant
            i <= chars.len(),
            n <= i,
            n == newline_count(chars@.take(i as int)),
        decreases chars.len() - i,
    {
        assert(chars@.take(i + 1).drop_last() =~= chars@.take(i as int));
        if chars[i] == '\n' {
            n = n + 1;
        }
        i = i + 1;
    }
    assert(chars@.take(chars@.len() as int) =~= chars@);
    match n.checked_add(1) {
        Some(lines) => Ok(lines),
        None => Err(ReadError::TooLong),
    }
}

/// Counts the lines of a file's content, which must be valid UTF-8.
pub fn count_lines(bytes: &[u8]) -> (r: Result<u64, ReadError>)
    ensures
        r == lines_of_bytes(bytes@),
{
    match as_utf8(bytes) {
        Some(text) => count_text_lines(text),
        None => Err(ReadError::NotText),
    }
}

} // verus!
