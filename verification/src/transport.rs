//! The framing of messages: header lines, a blank line, and a body of as many bytes as
//! the `Content-Length` header says.
use crate::codec::{decode, encode, parsed, plain, printed, NESTING_LIMIT};
use crate::json::{Json, JsonValue};
use crate::text::{
    ascii_bytes, characters, decimal, format_decimal, is_digit, is_numeral, lemma_decimal,
    is_white_space, lemma_decimal_ascii, lemma_numeral, lemma_trimmed, lemma_trimmed_blank,
    lemma_trimmed_both, numeral_value, parse_numeral, starts_with, trim, trimmed, utf8_text,
};
use vstd::prelude::*;
use vstd::slice::slice_subrange;
use vstd::utf8::{
    decode_utf8, encode_utf8, encode_utf8_decode_utf8, encode_utf8_valid_utf8, is_ascii_chars,
    is_ascii_chars_encode_utf8, valid_utf8,
};

verus! {

/// Why no message could be read.
#[derive(Debug)]
pub enum ReadError {
    /// A header line is not UTF-8.
    NotUtf8,
    /// The value of a `Content-Length` header is not a number, or too large.
    BadContentLength,
    /// The headers ended without a `Content-Length`.
    MissingContentLength,
    /// The input ended inside the body.
    UnexpectedEof,
    /// The body is not JSON.
    BadJson(serde_json::Error),
}

/// What a [`ReadError`] tells, apart from the words of `serde_json`.
pub enum Failure {
    NotUtf8,
    BadContentLength,
    MissingContentLength,
    UnexpectedEof,
    BadJson,
}

impl View for ReadError {
    type V = Failure;

    open spec fn view(&self) -> Failure {
        match self {
            ReadError::NotUtf8 => Failure::NotUtf8,
            ReadError::BadContentLength => Failure::BadContentLength,
            ReadError::MissingContentLength => Failure::MissingContentLength,
            ReadError::UnexpectedEof => Failure::UnexpectedEof,
            ReadError::BadJson(_) => Failure::BadJson,
        }
    }
}

/// What a header line says.
pub enum Header {
    /// Nothing: the headers end here.
    Blank,
    ContentLength(nat),
    BadContentLength,
    /// Something that does not matter here.
    Other,
}

/// The text of a `Content-Length` value: a numeral, with or without a plus sign.
pub open spec fn unsigned(text: Seq<char>) -> Seq<char> {
    if text.len() > 0 && text[0] == '+' {
        text.drop_first()
    } else {
        text
    }
}

/// What a header line says.
pub open spec fn header(line: Seq<char>) -> Header {
    let text = trimmed(line);
    let name = "Content-Length: "@;
    if text.len() == 0 {
        Header::Blank
    } else if name.is_prefix_of(text) {
        let value = unsigned(text.skip(name.len() as int));
        if is_numeral(value) && numeral_value(value) <= usize::MAX {
            Header::ContentLength(numeral_value(value))
        } else {
            Header::BadContentLength
        }
    } else {
        Header::Other
    }
}

/// The length of the first line, its line feed included.
pub open spec fn line_length(input: Seq<u8>) -> nat
    decreases input.len(),
{
    if input.len() == 0 {
        0
    } else if input[0] == 10 {
        1
    } else {
        1 + line_length(input.drop_first())
    }
}

/// How the headers at the front of the input end, with what is left of it.
pub enum Headers {
    /// With the input.
    Closed,
    Failed(Failure, Seq<u8>),
    Complete(Option<nat>, Seq<u8>),
}

proof fn lemma_line_bounds(input: Seq<u8>)
    ensures
        line_length(input) <= input.len(),
        input.len() > 0 ==> line_length(input) > 0,
    decreases input.len(),
{
    if input.len() > 0 {
        lemma_line_bounds(input.drop_first());
    }
}

/// Reads header lines up to the blank one. The last `Content-Length` counts.
pub open spec fn headers(input: Seq<u8>, length: Option<nat>) -> Headers
    decreases input.len(),
    via headers_decreases
{
    if input.len() == 0 {
        Headers::Closed
    } else {
        let line = input.take(line_length(input) as int);
        let rest = input.skip(line_length(input) as int);
        if !valid_utf8(line) {
            Headers::Failed(Failure::NotUtf8, rest)
        } else {
            match header(decode_utf8(line)) {
                Header::Blank => Headers::Complete(length, rest),
                Header::ContentLength(n) => headers(rest, Some(n)),
                Header::BadContentLength => Headers::Failed(Failure::BadContentLength, rest),
                Header::Other => headers(rest, length),
            }
        }
    }
}

#[via_fn]
proof fn headers_decreases(input: Seq<u8>, length: Option<nat>) {
    lemma_line_bounds(input);
}

/// What the frame at the front of the input holds.
pub enum Frame {
    Closed,
    Failed(Failure),
    Body(Seq<u8>),
}

/// The frame at the front of the input, with what is left behind it.
pub open spec fn frame_at(input: Seq<u8>) -> (Frame, Seq<u8>) {
    match headers(input, None) {
        Headers::Closed => (Frame::Closed, Seq::empty()),
        Headers::Failed(failure, rest) => (Frame::Failed(failure), rest),
        Headers::Complete(None, rest) => (Frame::Failed(Failure::MissingContentLength), rest),
        Headers::Complete(Some(n), rest) => if n <= rest.len() {
            (Frame::Body(rest.take(n as int)), rest.skip(n as int))
        } else {
            (Frame::Failed(Failure::UnexpectedEof), Seq::empty())
        },
    }
}

/// The message at the front of the input, if the input has not ended.
pub open spec fn message_at(input: Seq<u8>) -> Result<Option<Json>, Failure> {
    match frame_at(input).0 {
        Frame::Closed => Ok(None),
        Frame::Failed(failure) => Err(failure),
        Frame::Body(body) => match parsed(body) {
            Some(json) => Ok(Some(json)),
            None => Err(Failure::BadJson),
        },
    }
}

/// The header in front of a body of a number of bytes.
pub open spec fn header_text(length: nat) -> Seq<char> {
    "Content-Length: "@ + decimal(length) + "\r\n\r\n"@
}

/// A body with its header.
pub open spec fn framed(body: Seq<u8>) -> Seq<u8> {
    encode_utf8(header_text(body.len())) + body
}

/// A text of ASCII characters whose only line feed stands at its end is the first line of
/// whatever starts with it.
proof fn lemma_ascii_line(line: Seq<char>, rest: Seq<u8>)
    requires
        is_ascii_chars(line),
        line.len() > 0,
        line.last() == '\n',
        forall|i: int| 0 <= i < line.len() - 1 ==> #[trigger] line[i] != '\n',
    ensures
        ({
            let input = encode_utf8(line) + rest;
            &&& line_length(input) == line.len()
            &&& input.take(line.len() as int) == encode_utf8(line)
            &&& input.skip(line.len() as int) == rest
            &&& valid_utf8(encode_utf8(line))
            &&& decode_utf8(encode_utf8(line)) == line
        }),
{
    let input = encode_utf8(line) + rest;
    is_ascii_chars_encode_utf8(line);
    encode_utf8_valid_utf8(line);
    encode_utf8_decode_utf8(line);
    assert(input[line.len() - 1] == 10) by {
        assert(line[line.len() - 1] as u8 == encode_utf8(line)[line.len() - 1]);
    }
    assert forall|k: int| 0 <= k < line.len() - 1 implies input[k] != 10 by {
        assert(line[k] as u8 == encode_utf8(line)[k]);
        assert(line[k] != '\n');
    }
    lemma_line_found(input, line.len() - 1);
    assert(input.take(line.len() as int) =~= encode_utf8(line));
    assert(input.skip(line.len() as int) =~= rest);
}

/// A frame that was written is read back, whatever stands behind it.
pub proof fn lemma_frame_round_trip(body: Seq<u8>, rest: Seq<u8>)
    requires
        body.len() <= usize::MAX,
    ensures
        frame_at(framed(body) + rest) == (Frame::Body(body), rest),
{
    reveal_strlit("Content-Length: ");
    reveal_strlit("\r\n\r\n");
    let name = "Content-Length: "@;
    let digits = decimal(body.len());
    let feed = seq!['\r', '\n'];
    let first = name + digits + feed;
    lemma_decimal(body.len());
    assert forall|i: int| 0 <= i < digits.len() implies '0' <= #[trigger] digits[i] <= '9' by {
        assert(is_digit(digits[i]));
    }
    let input = framed(body) + rest;
    assert(header_text(body.len()) =~= first + feed);
    let blank_on = encode_utf8(feed) + (body + rest);
    assert(is_ascii_chars(first + feed));
    assert(is_ascii_chars(first));
    assert(input =~= encode_utf8(first) + blank_on) by {
        is_ascii_chars_encode_utf8(first + feed);
        is_ascii_chars_encode_utf8(first);
        is_ascii_chars_encode_utf8(feed);
        assert(encode_utf8(first + feed) =~= encode_utf8(first) + encode_utf8(feed)) by {
            assert forall|i: int| 0 <= i < (first + feed).len() implies encode_utf8(first + feed)[i]
                == (encode_utf8(first) + encode_utf8(feed))[i] by {
                assert((first + feed)[i] as u8 == encode_utf8(first + feed)[i]);
                if i < first.len() {
                    assert(first[i] as u8 == encode_utf8(first)[i]);
                } else {
                    assert(feed[i - first.len()] as u8 == encode_utf8(feed)[i - first.len()]);
                }
            }
        }
    }
    assert(header(first) == Header::ContentLength(body.len())) by {
        let text = name + digits;
        lemma_trimmed(text, feed);
        assert(first =~= text + feed);
        assert(text.subrange(0, name.len() as int) =~= name);
        assert(text.skip(name.len() as int) =~= digits);
    }
    lemma_ascii_line(first, blank_on);
    assert(headers(input, None) == headers(blank_on, Some(body.len())));
    assert(header(feed) == Header::Blank) by {
        lemma_trimmed_blank(feed);
    }
    lemma_ascii_line(feed, body + rest);
    assert(headers(blank_on, Some(body.len())) == Headers::Complete(
        Some(body.len()),
        body + rest,
    ));
    assert((body + rest).take(body.len() as int) =~= body);
    assert((body + rest).skip(body.len() as int) =~= rest);
}

/// What stands in front of a body is the header with the number of its bytes in base ten,
/// without a zero in front of other digits, and a blank line.
pub proof fn lemma_framed(body: Seq<u8>)
    ensures
        exists|digits: Seq<char>| #[trigger]
            is_numeral(digits) && numeral_value(digits) == body.len() && (digits.len() > 1
                ==> digits[0] != '0') && framed(body) == encode_utf8(
                "Content-Length: "@ + digits + "\r\n\r\n"@,
            ) + body,
{
    lemma_decimal(body.len());
    assert(is_numeral(decimal(body.len())));
}

/// All of the characters are white space.
pub open spec fn blank(text: Seq<char>) -> bool {
    forall|i: int| 0 <= i < text.len() ==> is_white_space(#[trigger] text[i])
}

/// A line of white space ends the headers.
pub proof fn lemma_blank_header(space: Seq<char>)
    requires
        blank(space),
    ensures
        header(space) is Blank,
{
    lemma_trimmed_blank(space);
}

/// A line that names the length tells every number of digits that a `usize` can hold, with or
/// without a plus sign before the digits and with or without white space around the line.
pub proof fn lemma_length_header(
    before: Seq<char>,
    plus: bool,
    digits: Seq<char>,
    after: Seq<char>,
)
    requires
        blank(before),
        blank(after),
        digits.len() > 0,
        forall|i: int| 0 <= i < digits.len() ==> '0' <= #[trigger] digits[i] <= '9',
    ensures
        ({
            let sign = if plus {
                seq!['+']
            } else {
                Seq::empty()
            };
            header(before + ("Content-Length: "@ + sign + digits) + after) == if numeral_value(
                digits,
            ) <= usize::MAX {
                Header::ContentLength(numeral_value(digits))
            } else {
                Header::BadContentLength
            }
        }),
{
    reveal_strlit("Content-Length: ");
    let name = "Content-Length: "@;
    let sign = if plus {
        seq!['+']
    } else {
        Seq::empty()
    };
    let text = name + sign + digits;
    lemma_numeral(digits, '0');
    assert(text.last() == digits[digits.len() - 1]);
    assert('0' <= digits[digits.len() - 1] <= '9');
    assert(text[0] == 'C');
    lemma_trimmed_both(before, text, after);
    assert(name.is_prefix_of(text));
    assert(text.skip(name.len() as int) =~= sign + digits);
    if plus {
        assert((sign + digits).drop_first() =~= digits);
    } else {
        assert(sign + digits =~= digits);
        assert('0' <= digits[0] <= '9');
    }
}

/// A line that names the length and then, out of the plus sign, has anything but digits alone is
/// a bad one.
pub proof fn lemma_bad_length_header(before: Seq<char>, value: Seq<char>, after: Seq<char>)
    requires
        blank(before),
        blank(after),
        value.len() > 0,
        !is_white_space(value.last()),
        value == seq!['+'] || exists|i: int|
            0 <= i < value.len() && (i == 0 ==> value[0] != '+') && !('0' <= #[trigger] value[i]
                <= '9'),
    ensures
        header(before + ("Content-Length: "@ + value) + after) is BadContentLength,
{
    reveal_strlit("Content-Length: ");
    let name = "Content-Length: "@;
    let text = name + value;
    assert(text.last() == value.last());
    assert(text[0] == 'C');
    lemma_trimmed_both(before, text, after);
    assert(name.is_prefix_of(text));
    assert(text.skip(name.len() as int) =~= value);
    let digits = unsigned(value);
    lemma_numeral(digits, '0');
    if value == seq!['+'] {
        assert(digits.len() == 0);
    } else {
        let i = choose|i: int|
            0 <= i < value.len() && (i == 0 ==> value[0] != '+') && !('0' <= #[trigger] value[i]
                <= '9');
        if value[0] == '+' {
            assert(digits[i - 1] == value[i]);
        } else {
            assert(digits[i] == value[i]);
        }
    }
}

/// Any other line does not matter.
pub proof fn lemma_other_header(before: Seq<char>, text: Seq<char>, after: Seq<char>)
    requires
        blank(before),
        blank(after),
        text.len() > 0,
        !is_white_space(text[0]),
        !is_white_space(text.last()),
        !"Content-Length: "@.is_prefix_of(text),
    ensures
        header(before + text + after) is Other,
{
    lemma_trimmed_both(before, text, after);
}

/// The bytes are the first line of what they stand in front of: there is no line feed in them
/// but at the end, and one there, unless nothing follows.
pub open spec fn is_line(line: Seq<u8>, rest: Seq<u8>) -> bool {
    &&& line.len() > 0
    &&& forall|i: int| 0 <= i < line.len() - 1 ==> #[trigger] line[i] != 10
    &&& line.last() == 10 || rest.len() == 0
}

proof fn lemma_line(line: Seq<u8>, rest: Seq<u8>)
    requires
        is_line(line, rest),
    ensures
        line_length(line + rest) == line.len(),
        (line + rest).take(line.len() as int) == line,
        (line + rest).skip(line.len() as int) == rest,
{
    let input = line + rest;
    if line.last() == 10 {
        assert forall|k: int| 0 <= k < line.len() - 1 implies input[k] != 10 by {
            assert(line[k] != 10);
        }
        lemma_line_found(input, line.len() - 1);
    } else {
        assert forall|k: int| 0 <= k < input.len() implies input[k] != 10 by {
            assert(input[k] == line[k]);
        }
        lemma_line_open(input);
    }
    assert(input.take(line.len() as int) =~= line);
    assert(input.skip(line.len() as int) =~= rest);
}

/// What a first line does to the reading of the headers.
proof fn lemma_first_header(line: Seq<u8>, rest: Seq<u8>, length: Option<nat>)
    requires
        is_line(line, rest),
        valid_utf8(line),
    ensures
        headers(line + rest, length) == match header(decode_utf8(line)) {
            Header::Blank => Headers::Complete(length, rest),
            Header::ContentLength(n) => headers(rest, Some(n)),
            Header::BadContentLength => Headers::Failed(Failure::BadContentLength, rest),
            Header::Other => headers(rest, length),
        },
{
    lemma_line(line, rest);
}

/// A header that does not matter makes no difference to what is read behind it.
pub proof fn lemma_header_skipped(line: Seq<u8>, rest: Seq<u8>)
    requires
        is_line(line, rest),
        valid_utf8(line),
        header(decode_utf8(line)) is Other,
    ensures
        frame_at(line + rest) == frame_at(rest),
{
    lemma_first_header(line, rest, None);
}

/// Of two headers with a length, the later one counts.
pub proof fn lemma_later_length_counts(first: Seq<u8>, second: Seq<u8>, rest: Seq<u8>)
    requires
        is_line(first, second + rest),
        is_line(second, rest),
        valid_utf8(first),
        valid_utf8(second),
        header(decode_utf8(first)) is ContentLength,
        header(decode_utf8(second)) is ContentLength,
    ensures
        frame_at(first + (second + rest)) == frame_at(second + rest),
{
    let length = header(decode_utf8(first))->ContentLength_0;
    lemma_first_header(first, second + rest, None);
    lemma_first_header(second, rest, Some(length));
    lemma_first_header(second, rest, None);
}

/// Behind a header with a length and a blank line stands a body of that length: it is read,
/// whatever it holds, and the reader then stands behind it. It is a message where it is JSON,
/// and a failure where it is not. Where the input ends before the body does, that is a failure
/// too.
pub proof fn lemma_frame(line: Seq<u8>, end: Seq<u8>, body: Seq<u8>, rest: Seq<u8>)
    requires
        is_line(line, end + (body + rest)),
        is_line(end, body + rest),
        valid_utf8(line),
        valid_utf8(end),
        header(decode_utf8(line)) is ContentLength,
        header(decode_utf8(end)) is Blank,
    ensures
        ({
            let input = line + (end + (body + rest));
            let length = header(decode_utf8(line))->ContentLength_0;
            &&& length == body.len() ==> {
                &&& frame_at(input) == (Frame::Body(body), rest)
                &&& parsed(body) is Some ==> message_at(input) == Ok::<Option<Json>, Failure>(
                    parsed(body),
                )
                &&& parsed(body) is None ==> message_at(input) == Err::<Option<Json>, Failure>(
                    Failure::BadJson,
                )
            }
            &&& length > (body + rest).len() ==> frame_at(input) == (
                Frame::Failed(Failure::UnexpectedEof),
                Seq::<u8>::empty(),
            ) && message_at(input) == Err::<Option<Json>, Failure>(Failure::UnexpectedEof)
        }),
{
    let length = header(decode_utf8(line))->ContentLength_0;
    lemma_first_header(line, end + (body + rest), None);
    lemma_first_header(end, body + rest, Some(length));
    assert((body + rest).take(body.len() as int) =~= body);
    assert((body + rest).skip(body.len() as int) =~= rest);
}

/// A first line that ends the headers, that has a bad length or that is no text is a failure,
/// and the reader then stands behind it.
pub proof fn lemma_bad_first_line(line: Seq<u8>, rest: Seq<u8>)
    requires
        is_line(line, rest),
    ensures
        valid_utf8(line) && header(decode_utf8(line)) is Blank ==> frame_at(line + rest) == (
            Frame::Failed(Failure::MissingContentLength),
            rest,
        ) && message_at(line + rest) == Err::<Option<Json>, Failure>(Failure::MissingContentLength),
        valid_utf8(line) && header(decode_utf8(line)) is BadContentLength ==> frame_at(line + rest)
            == (Frame::Failed(Failure::BadContentLength), rest) && message_at(line + rest) == Err::<
            Option<Json>,
            Failure,
        >(Failure::BadContentLength),
        !valid_utf8(line) ==> frame_at(line + rest) == (Frame::Failed(Failure::NotUtf8), rest)
            && message_at(line + rest) == Err::<Option<Json>, Failure>(Failure::NotUtf8),
{
    lemma_line(line, rest);
}

/// Where the input ends behind a header, there is no message, and that is no failure.
pub proof fn lemma_end_behind_header(line: Seq<u8>)
    requires
        is_line(line, Seq::empty()),
        valid_utf8(line),
        header(decode_utf8(line)) is Other || header(decode_utf8(line)) is ContentLength,
    ensures
        message_at(line) == Ok::<Option<Json>, Failure>(None),
{
    lemma_first_header(line, Seq::empty(), None);
    assert(line + Seq::<u8>::empty() =~= line);
    assert(forall|length: Option<nat>| #[trigger]
        headers(Seq::<u8>::empty(), length) == Headers::Closed);
}

/// What was read means a message, the end or a failure of its own kind.
pub proof fn lemma_meaning(value: JsonValue, error: ReadError, json_error: serde_json::Error)
    ensures
        read_view(Ok(Some(value))) == Ok::<Option<Json>, Failure>(Some(value@)),
        read_view(Ok(None)) == Ok::<Option<Json>, Failure>(None),
        read_view(Err(error)) == Err::<Option<Json>, Failure>(error@),
        ReadError::NotUtf8@ == Failure::NotUtf8,
        ReadError::BadContentLength@ == Failure::BadContentLength,
        ReadError::MissingContentLength@ == Failure::MissingContentLength,
        ReadError::UnexpectedEof@ == Failure::UnexpectedEof,
        ReadError::BadJson(json_error)@ == Failure::BadJson,
{
}

/// The bytes of a message.
pub open spec fn written(message: Json) -> Seq<u8> {
    framed(encode_utf8(printed(message)))
}

/// The text of a message gives the message back, and a header can say its length.
pub open spec fn reads_back(message: Json) -> bool {
    &&& parsed(encode_utf8(printed(message))) == Some(message)
    &&& encode_utf8(printed(message)).len() <= usize::MAX
}

/// The bytes of messages, one behind the other.
pub open spec fn stream(messages: Seq<Json>) -> Seq<u8>
    decreases messages.len(),
{
    if messages.len() == 0 {
        Seq::empty()
    } else {
        written(messages[0]) + stream(messages.drop_first())
    }
}

/// What is left of the input behind a number of frames.
pub open spec fn behind(input: Seq<u8>, frames: nat) -> Seq<u8>
    decreases frames,
{
    if frames == 0 {
        input
    } else {
        behind(frame_at(input).1, (frames - 1) as nat)
    }
}

/// Messages that were written one behind the other are read back one after the other, each
/// as it was written. The reader then stands behind the last one.
pub proof fn lemma_stream_round_trip(messages: Seq<Json>, rest: Seq<u8>)
    requires
        forall|i: int| 0 <= i < messages.len() ==> reads_back(#[trigger] messages[i]),
    ensures
        forall|i: nat|
            i < messages.len() ==> message_at(#[trigger] behind(stream(messages) + rest, i)) == Ok::<
                Option<Json>,
                Failure,
            >(Some(messages[i as int])),
        behind(stream(messages) + rest, messages.len()) == rest,
    decreases messages.len(),
{
    let input = stream(messages) + rest;
    if messages.len() == 0 {
        assert(input =~= rest);
    } else {
        let later = messages.drop_first();
        let left = stream(later) + rest;
        let body = encode_utf8(printed(messages[0]));
        assert(reads_back(messages[0]));
        assert forall|i: int| 0 <= i < later.len() implies reads_back(#[trigger] later[i]) by {
            assert(reads_back(messages[i + 1]));
        }
        lemma_stream_round_trip(later, rest);
        lemma_frame_round_trip(body, left);
        assert(input =~= framed(body) + left);
        assert forall|i: nat| i < messages.len() implies message_at(#[trigger] behind(input, i))
            == Ok::<Option<Json>, Failure>(Some(messages[i as int])) by {
            if i > 0 {
                assert(behind(input, i) == behind(left, (i - 1) as nat));
                assert(later[i - 1] == messages[i as int]);
            }
        }
    }
}

/// Where the input has ended there is no message, and that is no failure.
pub proof fn lemma_end_of_input()
    ensures
        message_at(Seq::empty()) == Ok::<Option<Json>, Failure>(None),
{
}

/// Takes in the header lines of a message, one at a time.
pub struct HeaderReader {
    /// The value of the last `Content-Length` header.
    pub content_length: Option<usize>,
}

/// The number as it stands in a specification.
pub open spec fn length_view(length: Option<usize>) -> Option<nat> {
    match length {
        Some(n) => Some(n as nat),
        None => None,
    }
}

impl HeaderReader {
    /// No line was read yet.
    pub fn new() -> (reader: HeaderReader)
        ensures
            reader.content_length is None,
    {
        HeaderReader { content_length: None }
    }

    /// Takes a line in, and tells whether the headers end with it.
    pub fn read_line(&mut self, line: &str) -> (end: Result<bool, ReadError>)
        ensures
            match header(line@) {
                Header::Blank => end == Ok::<bool, ReadError>(true) && *final(self) == *old(self),
                Header::ContentLength(n) => end == Ok::<bool, ReadError>(false) && length_view(
                    final(self).content_length,
                ) == Some(n),
                Header::BadContentLength => end == Err::<bool, ReadError>(
                    ReadError::BadContentLength,
                ) && *final(self) == *old(self),
                Header::Other => end == Ok::<bool, ReadError>(false) && *final(self) == *old(self),
            },
    {
        let text = trim(characters(line));
        if text.len() == 0 {
            return Ok(true);
        }
        let name = characters("Content-Length: ");
        if !starts_with(text.as_slice(), name.as_slice()) {
            return Ok(false);
        }
        let mut from: usize = name.len();
        let ghost value = text@.skip(from as int);
        assert(value.len() > 0 ==> value[0] == text@[from as int]);
        if from < text.len() && text[from] == '+' {
            assert(text@.skip(from as int).drop_first() =~= text@.skip(from + 1));
            from += 1;
        }
        assert(text@.subrange(from as int, text@.len() as int) =~= text@.skip(from as int));
        match parse_numeral(slice_subrange(text.as_slice(), from, text.len())) {
            Some(n) => {
                self.content_length = Some(n);
                Ok(false)
            },
            None => Err(ReadError::BadContentLength),
        }
    }

    /// The length of the body, once the headers have ended.
    pub fn body_length(&self) -> (length: Result<usize, ReadError>)
        ensures
            length == match self.content_length {
                Some(n) => Ok::<usize, ReadError>(n),
                None => Err::<usize, ReadError>(ReadError::MissingContentLength),
            },
    {
        match self.content_length {
            Some(n) => Ok(n),
            None => Err(ReadError::MissingContentLength),
        }
    }
}

/// Reads the value that a body holds.
pub fn decode_body(body: &[u8]) -> (value: Result<JsonValue, ReadError>)
    ensures
        match value {
            Ok(v) => parsed(body@) == Some(v@),
            Err(error) => parsed(body@) is None && error@ == Failure::BadJson,
        },
{
    match decode(body) {
        Ok(value) => Ok(value),
        Err(error) => Err(ReadError::BadJson(error)),
    }
}

proof fn lemma_line_found(input: Seq<u8>, i: int)
    requires
        0 <= i < input.len(),
        input[i] == 10,
        forall|k: int| 0 <= k < i ==> input[k] != 10,
    ensures
        line_length(input) == i + 1,
    decreases input.len(),
{
    if i > 0 {
        lemma_line_found(input.drop_first(), i - 1);
    }
}

proof fn lemma_line_open(input: Seq<u8>)
    requires
        forall|k: int| 0 <= k < input.len() ==> input[k] != 10,
    ensures
        line_length(input) == input.len(),
    decreases input.len(),
{
    if input.len() > 0 {
        lemma_line_open(input.drop_first());
    }
}

/// Where the line that starts at a place ends.
fn line_end(input: &[u8], from: usize) -> (end: usize)
    requires
        from < input@.len(),
    ensures
        from < end <= input@.len(),
        end == from + line_length(input@.skip(from as int)),
{
    let ghost line = input@.skip(from as int);
    let mut i: usize = from;
    while i < input.len()
        invariant
            from <= i <= input@.len(),
            line == input@.skip(from as int),
            forall|k: int| 0 <= k < i - from ==> line[k] != 10,
        decreases input@.len() - i,
    {
        if input[i] == 10 {
            proof {
                lemma_line_found(line, i - from);
            }
            return i + 1;
        }
        i += 1;
    }
    proof {
        lemma_line_open(line);
    }
    i
}

/// What was read of a frame, as it stands in a specification.
pub open spec fn frame_view(frame: Result<Option<&[u8]>, ReadError>) -> Frame {
    match frame {
        Ok(None) => Frame::Closed,
        Ok(Some(body)) => Frame::Body(body@),
        Err(error) => Frame::Failed(error@),
    }
}

/// Reads the frame at the front of the input, and tells how many bytes that took.
pub fn read_frame(input: &[u8]) -> (frame: (Result<Option<&[u8]>, ReadError>, usize))
    ensures
        frame.1 <= input@.len(),
        frame_at(input@) == (frame_view(frame.0), input@.skip(frame.1 as int)),
{
    let mut reader = HeaderReader::new();
    let mut at: usize = 0;
    assert(input@.skip(0) =~= input@);
    loop
        invariant_except_break
            at <= input@.len(),
            headers(input@, None) == headers(
                input@.skip(at as int),
                length_view(reader.content_length),
            ),
        ensures
            at <= input@.len(),
            headers(input@, None) == Headers::Complete(
                length_view(reader.content_length),
                input@.skip(at as int),
            ),
        decreases input@.len() - at,
    {
        let ghost rest = input@.skip(at as int);
        if at == input.len() {
            assert(input@.skip(at as int) =~= Seq::<u8>::empty());
            return (Ok(None), at);
        }
        let end = line_end(input, at);
        assert(input@.subrange(at as int, end as int) =~= rest.take(line_length(rest) as int));
        assert(input@.skip(end as int) =~= rest.skip(line_length(rest) as int));
        let line = match utf8_text(slice_subrange(input, at, end)) {
            Some(line) => line,
            None => return (Err(ReadError::NotUtf8), end),
        };
        at = end;
        match reader.read_line(line) {
            Ok(true) => {
                break ;
            },
            Ok(false) => {},
            Err(error) => return (Err(error), at),
        }
    }
    let length = match reader.body_length() {
        Ok(length) => length,
        Err(error) => return (Err(error), at),
    };
    if input.len() - at < length {
        assert(input@.skip(input@.len() as int) =~= Seq::<u8>::empty());
        return (Err(ReadError::UnexpectedEof), input.len());
    }
    let end = at + length;
    assert(input@.subrange(at as int, end as int) =~= input@.skip(at as int).take(length as int));
    assert(input@.skip(end as int) =~= input@.skip(at as int).skip(length as int));
    (Ok(Some(slice_subrange(input, at, end))), end)
}

/// Bytes that are read from the front.
pub struct ByteReader {
    bytes: Vec<u8>,
    position: usize,
}

impl View for ByteReader {
    type V = Seq<u8>;

    /// The bytes that were not read yet.
    closed spec fn view(&self) -> Seq<u8> {
        self.bytes@.skip(self.position as int)
    }
}

impl ByteReader {
    #[verifier::type_invariant]
    spec fn well_formed(self) -> bool {
        self.position <= self.bytes@.len()
    }

    /// A reader of all of the bytes.
    pub fn new(bytes: Vec<u8>) -> (reader: ByteReader)
        ensures
            reader@ == bytes@,
    {
        let reader = ByteReader { bytes, position: 0 };
        assert(bytes@.skip(0) =~= bytes@);
        reader
    }
}

/// What was read, as it stands in a specification.
pub open spec fn read_view(message: Result<Option<JsonValue>, ReadError>) -> Result<
    Option<Json>,
    Failure,
> {
    match message {
        Ok(Some(value)) => Ok(Some(value@)),
        Ok(None) => Ok(None),
        Err(error) => Err(error@),
    }
}

/// Read a single LSP message from the reader.
/// Parses `Content-Length` header and reads the JSON body.
pub fn read_message(reader: &mut ByteReader) -> (message: Result<Option<JsonValue>, ReadError>)
    ensures
        read_view(message) == message_at(old(reader)@),
        final(reader)@ == frame_at(old(reader)@).1,
{
    proof {
        use_type_invariant(&*reader);
    }
    let input = slice_subrange(reader.bytes.as_slice(), reader.position, reader.bytes.len());
    assert(input@ =~= reader@);
    let (frame, taken) = read_frame(input);
    let message = match frame {
        Ok(Some(body)) => match decode_body(body) {
            Ok(value) => Ok(Some(value)),
            Err(error) => Err(error),
        },
        Ok(None) => Ok(None),
        Err(error) => Err(error),
    };
    assert(reader.bytes@.skip(reader.position + taken) =~= input@.skip(taken as int));
    reader.position = reader.position + taken;
    message
}

/// The header in front of a body of a number of bytes.
fn write_header(length: usize) -> (bytes: Vec<u8>)
    ensures
        bytes@ == encode_utf8(header_text(length as nat)),
{
    let mut text = characters("Content-Length: ");
    let mut digits = format_decimal(length);
    let mut end = characters("\r\n\r\n");
    text.append(&mut digits);
    text.append(&mut end);
    assert(text@ =~= header_text(length as nat));
    proof {
        lemma_header_ascii(length as nat);
    }
    ascii_bytes(text.as_slice())
}

proof fn lemma_header_ascii(length: nat)
    ensures
        is_ascii_chars(header_text(length)),
{
    reveal_strlit("Content-Length: ");
    reveal_strlit("\r\n\r\n");
    lemma_decimal_ascii(length);
}

/// Write a single LSP message.
/// Prepends `Content-Length` header.
pub fn write_message(value: &JsonValue) -> (bytes: Vec<u8>)
    ensures
        bytes@ == written(value@),
        plain(value@, NESTING_LIMIT as nat) ==> reads_back(value@),
        plain(value@, NESTING_LIMIT as nat) ==> forall|rest: Seq<u8>|
            message_at(#[trigger] (bytes@ + rest)) == Ok::<Option<Json>, Failure>(Some(value@))
                && frame_at(bytes@ + rest).1 == rest,
{
    let text = encode(value);
    let body = text.as_str().as_bytes();
    let mut bytes = write_header(body.len());
    bytes.extend_from_slice(body);
    assert(bytes@ =~= framed(body@));
    proof {
        assert forall|rest: Seq<u8>| plain(value@, NESTING_LIMIT as nat) implies message_at(
            #[trigger] (bytes@ + rest),
        ) == Ok::<Option<Json>, Failure>(Some(value@)) && frame_at(bytes@ + rest).1 == rest by {
            lemma_frame_round_trip(body@, rest);
        }
    }
    bytes
}

} // verus!
