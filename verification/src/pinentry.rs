//! The Assuan dialogue with a pinentry program: how it is started, the commands that it is
//! sent, and what its replies mean.

use vstd::prelude::*;
use vstd::string::*;
use vstd::utf8::*;

use crate::error::{slice_text_of, text_views, Error, ErrorView};
use crate::pairs::{byte_pair, byte_pairs, byte_value, last_value};
use crate::text::{
    bytes_copy, lemma_encode_concat, same_bytes, starts_with, utf8_str, utf8_text,
};

verus! {

broadcast use vstd::string::group_string_axioms;

/// The byte of `%`.
pub const PERCENT: u8 = 0x25;

/// The byte that ends a line.
pub const NEWLINE: u8 = 0x0a;

/// The length of the buffer that a line is read into, and so of the longest line.
pub const LINE_CAPACITY: usize = 4096;

/// The value of a hexadecimal digit of either case.
pub open spec fn hex_value(b: u8) -> Option<u8> {
    if 0x30 <= b <= 0x39 {
        Some((b - 0x30) as u8)
    } else if 0x41 <= b <= 0x46 {
        Some((b - 0x41 + 10) as u8)
    } else if 0x61 <= b <= 0x66 {
        Some((b - 0x61 + 10) as u8)
    } else {
        None
    }
}

/// The value of a hexadecimal digit of either case.
pub fn hex_digit(b: u8) -> (res: Option<u8>)
    ensures
        res == hex_value(b),
        res is Some <==> 0x30 <= b <= 0x39 || 0x41 <= b <= 0x46 || 0x61 <= b <= 0x66,
        0x30 <= b <= 0x39 ==> res == Some((b - 0x30) as u8),
        0x41 <= b <= 0x46 ==> res == Some((b - 0x37) as u8),
        0x61 <= b <= 0x66 ==> res == Some((b - 0x57) as u8),
{
    if 0x30 <= b && b <= 0x39 {
        Some(b - 0x30)
    } else if 0x41 <= b && b <= 0x46 {
        Some(b - 0x41 + 10)
    } else if 0x61 <= b && b <= 0x66 {
        Some(b - 0x61 + 10)
    } else {
        None
    }
}

/// Whether `s` begins with a percent sign and two hexadecimal digits.
pub open spec fn begins_with_escape(s: Seq<u8>) -> bool {
    &&& s.len() > 2
    &&& s[0] == PERCENT
    &&& hex_value(s[1]) is Some
    &&& hex_value(s[2]) is Some
}

/// What `s` stands for: each percent sign with two hexadecimal digits behind it is the byte
/// that the digits name, and every other byte is itself.
pub open spec fn percent_decoded(s: Seq<u8>) -> Seq<u8>
    decreases s.len(),
{
    if s.len() == 0 {
        Seq::empty()
    } else if begins_with_escape(s) {
        seq![(hex_value(s[1])->0 * 16 + hex_value(s[2])->0) as u8] + percent_decoded(s.skip(3))
    } else {
        seq![s[0]] + percent_decoded(s.skip(1))
    }
}

/// The sixteen digits stand for the numbers below sixteen, a letter for the same number in
/// either case.
pub proof fn law_hexadecimal_digits(b: u8)
    ensures
        hex_value(b) matches Some(n) ==> n < 16 && (0x30 <= b <= 0x39 <==> n < 10) && (n < 10 ==> b
            == 0x30 + n) && (n >= 10 ==> b == 0x41 + (n - 10) || b == 0x61 + (n - 10)),
        0x30 <= b <= 0x39 || 0x41 <= b <= 0x46 || 0x61 <= b <= 0x66 ==> hex_value(b) is Some,
        0x41 <= b <= 0x46 ==> hex_value((b + 0x20) as u8) == hex_value(b),
{
}

/// A percent sign and two digits are decoded to the byte that the digits name. A percent sign
/// without two digits behind it stands for itself, and so does every other byte.
pub proof fn law_escapes_are_decoded(h: u8, l: u8, b: u8, rest: Seq<u8>)
    ensures
        hex_value(h) is Some && hex_value(l) is Some ==> percent_decoded(
            seq![0x25u8, h, l] + rest,
        ) == seq![(hex_value(h)->0 * 16 + hex_value(l)->0) as u8] + percent_decoded(rest),
        b != 0x25 ==> percent_decoded(seq![b] + rest) == seq![b] + percent_decoded(rest),
        rest.len() < 2 || hex_value(rest[0]) is None || hex_value(rest[1]) is None
            ==> percent_decoded(seq![0x25u8] + rest) == seq![0x25u8] + percent_decoded(rest),
        percent_decoded(Seq::empty()) == Seq::<u8>::empty(),
{
    let escape = seq![0x25u8, h, l] + rest;
    assert(escape.skip(3) =~= rest);
    assert((seq![b] + rest).skip(1) =~= rest);
    let sign = seq![0x25u8] + rest;
    assert(sign.skip(1) =~= rest);
    if rest.len() >= 2 {
        assert(sign[1] == rest[0]);
        assert(sign[2] == rest[1]);
    }
}

/// Decodes in place: no other buffer is used.
/// The decoded bytes come to stand at the start of the buffer, and their number is returned;
/// the bytes behind them are left as they were.
pub fn percent_decode(buf: &mut [u8]) -> (res: usize)
    ensures
        res == percent_decoded(old(buf)@).len(),
        res <= old(buf)@.len(),
        final(buf)@ == percent_decoded(old(buf)@) + old(buf)@.skip(res as int),
{
    let ghost orig = buf@;
    let len = buf.len();
    let mut ri: usize = 0;
    let mut wi: usize = 0;
    assert(orig.skip(0) =~= orig);
    while ri < len
        invariant
            len == orig.len(),
            buf@.len() == len,
            wi <= ri <= len,
            percent_decoded(orig) == buf@.take(wi as int) + percent_decoded(orig.skip(ri as int)),
            buf@.skip(wi as int) == orig.skip(wi as int),
        decreases len - ri,
    {
        let ghost rest = orig.skip(ri as int);
        let ghost start = ri;
        assert(forall|k: int| wi <= k < len ==> buf@[k] == buf@.skip(wi as int)[k - wi]);
        assert(forall|k: int| wi <= k < len ==> buf@[k] == orig.skip(wi as int)[k - wi]);
        let mut c: u8 = buf[ri];
        if c == PERCENT && len - ri > 2 {
            if let Some(h) = hex_digit(buf[ri + 1]) {
                if let Some(l) = hex_digit(buf[ri + 2]) {
                    c = h * 0x10 + l;
                    ri = ri + 2;
                }
            }
        }
        let ghost before = buf@;
        buf[wi] = c;
        ri = ri + 1;
        proof {
            assert(rest.skip(ri - start) =~= orig.skip(ri as int));
            assert(percent_decoded(rest) =~= seq![c] + percent_decoded(orig.skip(ri as int)));
            assert(buf@.take(wi + 1) =~= before.take(wi as int) + seq![c]);
            assert(buf@.skip(wi + 1) =~= before.skip(wi as int).skip(1));
            assert(orig.skip(wi + 1) =~= orig.skip(wi as int).skip(1));
        }
        wi = wi + 1;
    }
    assert(orig.skip(ri as int) =~= Seq::<u8>::empty());
    assert(buf@ =~= buf@.take(wi as int) + buf@.skip(wi as int));
    wi
}

/// What became of one more byte of a line.
#[derive(Clone, Copy, Debug, PartialEq, Eq)]
pub enum LineStep {
    /// The byte belongs to the line, which now has this length.
    More(usize),
    /// The byte ended the line, which has this length.
    Line(usize),
}

/// Takes the next byte of a line, of which `len` bytes already stand at the start of `buf`: a
/// newline ends the line and is not kept, and every other byte is appended to it. A line is
/// never longer than the buffer that it has.
pub fn secure_read_line(buf: &mut [u8], len: usize, b: u8) -> (res: LineStep)
    requires
        old(buf)@.len() == LINE_CAPACITY,
        len <= LINE_CAPACITY,
        b != NEWLINE ==> len < LINE_CAPACITY,
    ensures
        b == NEWLINE ==> res == LineStep::Line(len) && final(buf)@ == old(buf)@,
        b != NEWLINE ==> res == LineStep::More((len + 1) as usize) && final(buf)@ == old(
            buf,
        )@.update(len as int, b),
        final(buf)@.len() == 4096,
{
    if b == NEWLINE {
        return LineStep::Line(len);
    }
    buf[len] = b;
    LineStep::More(len + 1)
}

/// The line that `input` begins with: the bytes before its first newline, where it has one.
pub open spec fn first_line(input: Seq<u8>) -> Option<Seq<u8>>
    decreases input.len(),
{
    if input.len() == 0 {
        None
    } else if input[0] == NEWLINE {
        Some(Seq::empty())
    } else {
        match first_line(input.skip(1)) {
            Some(line) => Some(seq![input[0]] + line),
            None => None,
        }
    }
}

/// The line that input begins with is what stands before its first newline, and there is none
/// where there is no newline. A newline is what ends a command that is sent, too.
pub proof fn law_lines_end_at_newlines(line: Seq<u8>, rest: Seq<u8>)
    requires
        forall|i: int| 0 <= i < line.len() ==> #[trigger] line[i] != 0x0a,
    ensures
        first_line(line + encode_utf8("\n"@) + rest) == Some(line),
        first_line(line) is None,
    decreases line.len(),
{
    reveal_strlit("\n");
    is_ascii_chars_encode_utf8("\n"@);
    let all = line + encode_utf8("\n"@) + rest;
    if line.len() > 0 {
        assert(forall|i: int| 0 <= i < line.skip(1).len() ==> line.skip(1)[i] == line[i + 1]);
        law_lines_end_at_newlines(line.skip(1), rest);
        assert(all.skip(1) =~= line.skip(1) + encode_utf8("\n"@) + rest);
        assert(seq![line[0]] + line.skip(1) =~= line);
    } else {
        assert(all[0] == 0x0a);
        assert(line =~= Seq::<u8>::empty());
    }
}

/// What stands in the buffer once all of `input` has been taken byte by byte, as
/// [`secure_read_line`] takes it, up to the end of the line.
pub open spec fn read_all(buf: Seq<u8>, len: int, input: Seq<u8>) -> Option<Seq<u8>>
    decreases input.len(),
{
    if input.len() == 0 {
        None
    } else if input[0] == NEWLINE {
        Some(buf.take(len))
    } else {
        read_all(buf.update(len, input[0]), len + 1, input.skip(1))
    }
}

/// Reading byte by byte gives the first line of the input, whatever stood in the buffer before
/// and whatever follows, as long as the line fits.
pub proof fn law_reading_gives_the_first_line(buf: Seq<u8>, input: Seq<u8>)
    requires
        buf.len() == LINE_CAPACITY,
        first_line(input) matches Some(line) ==> line.len() <= LINE_CAPACITY,
        first_line(input) is None ==> input.len() <= LINE_CAPACITY,
    ensures
        read_all(buf, 0, input) == first_line(input),
{
    lemma_reading(buf, 0, input);
    if let Some(line) = first_line(input) {
        assert(buf.take(0) + line =~= line);
    }
}

proof fn lemma_reading(buf: Seq<u8>, len: int, input: Seq<u8>)
    requires
        0 <= len <= buf.len(),
        first_line(input) matches Some(line) ==> len + line.len() <= buf.len(),
        first_line(input) is None ==> len + input.len() <= buf.len(),
    ensures
        read_all(buf, len, input) == match first_line(input) {
            Some(line) => Some(buf.take(len) + line),
            None => None,
        },
    decreases input.len(),
{
    if input.len() > 0 {
        if input[0] == NEWLINE {
            assert(buf.take(len) + Seq::<u8>::empty() =~= buf.take(len));
        } else {
            let next = buf.update(len, input[0]);
            lemma_reading(next, len + 1, input.skip(1));
            if let Some(line) = first_line(input.skip(1)) {
                assert(next.take(len + 1) + line =~= buf.take(len) + (seq![input[0]] + line));
            }
        }
    }
}

/// What a reply line asks for.
#[derive(Clone, Copy, Debug, PartialEq, Eq, Structural)]
pub enum Progress {
    /// The command succeeded, and this line is its result.
    Finished,
    /// A status line, of no interest: the reply goes on.
    ReadOn,
    /// The line holds data: it is the result once the next line has confirmed it.
    ReadEnd,
}

/// The code with which pinentry reports that the user dismissed the dialogue.
pub open spec fn cancel_code() -> Seq<u8> {
    encode_utf8("83886179"@)
}

/// Whether the report of an error has the code of a dismissed dialogue: the code is all that
/// stands before the first space.
pub open spec fn is_cancellation(report: Seq<u8>) -> bool {
    report == cancel_code() || (cancel_code() + encode_utf8(" "@)).is_prefix_of(report)
}

/// What a reply line means. `OK` ends the command; `ERR` refuses it, with a report behind it;
/// `S` and `D` announce status and data; nothing else is a reply.
pub open spec fn reply_meaning(line: Seq<u8>) -> Result<Progress, ErrorView> {
    if !valid_utf8(line) {
        Err(ErrorView::InvalidUtf8)
    } else if encode_utf8("OK"@).is_prefix_of(line) {
        Ok(Progress::Finished)
    } else if encode_utf8("ERR "@).is_prefix_of(line) {
        if is_cancellation(line.skip(4)) {
            Err(ErrorView::PinentryCancelled)
        } else {
            Err(ErrorView::PinentryErrorMessage { error: decode_utf8(line.skip(4)) })
        }
    } else if encode_utf8("S "@).is_prefix_of(line) {
        Ok(Progress::ReadOn)
    } else if encode_utf8("D "@).is_prefix_of(line) {
        Ok(Progress::ReadEnd)
    } else {
        Err(ErrorView::PinentryErrorMessage { error: decode_utf8(line) })
    }
}

/// A result by its views.
pub open spec fn view_err<T>(r: Result<T, Error>) -> Result<T, ErrorView> {
    match r {
        Ok(x) => Ok(x),
        Err(e) => Err(e@),
    }
}

/// Dropping ASCII bytes from the front of UTF-8 leaves UTF-8.
proof fn lemma_utf8_behind_ascii(bytes: Seq<u8>, n: int)
    requires
        valid_utf8(bytes),
        0 <= n <= bytes.len(),
        forall|i: int| 0 <= i < n ==> bytes[i] < 0x80,
    ensures
        valid_utf8(bytes.skip(n)),
    decreases n,
{
    if n == 0 {
        assert(bytes.skip(0) =~= bytes);
    } else {
        assert(bytes[0] < 0x80);
        assert(pop_first_scalar(bytes) =~= bytes.skip(1));
        lemma_utf8_behind_ascii(bytes.skip(1), n - 1);
        assert(bytes.skip(1).skip(n - 1) =~= bytes.skip(n));
    }
}

/// The length of the literals that replies begin with.
proof fn lemma_reply_literals()
    ensures
        encode_utf8("ERR "@).len() == 4,
        forall|i: int| 0 <= i < 4 ==> encode_utf8("ERR "@)[i] < 0x80,
        encode_utf8("D "@) == seq![0x44u8, 0x20u8],
{
    reveal_strlit("ERR ");
    reveal_strlit("D ");
    is_ascii_chars_encode_utf8("ERR "@);
    is_ascii_chars_encode_utf8("D "@);
    assert(encode_utf8("D "@) =~= seq![0x44u8, 0x20u8]);
}

/// Whether the report of an error has the code of a dismissed dialogue.
fn cancelled(report: &[u8]) -> (res: bool)
    ensures
        res <==> is_cancellation(report@),
        res <==> report@ == encode_utf8("83886179"@) || (encode_utf8("83886179"@) + encode_utf8(
            " "@,
        )).is_prefix_of(report@),
{
    let code = "83886179".as_bytes();
    if same_bytes(report, code) {
        return true;
    }
    let mut word = bytes_copy(code);
    word.extend_from_slice(" ".as_bytes());
    assert(word@ =~= cancel_code() + encode_utf8(" "@));
    starts_with(report, word.as_slice())
}

/// What a reply line means.
pub fn reply(line: &[u8]) -> (res: Result<Progress, Error>)
    ensures
        view_err(res) == reply_meaning(line@),
        !valid_utf8(line@) ==> (res matches Err(e) && e is InvalidUtf8),
        valid_utf8(line@) ==> if encode_utf8("OK"@).is_prefix_of(line@) {
            res == Ok::<Progress, Error>(Progress::Finished)
        } else if encode_utf8("ERR "@).is_prefix_of(line@) {
            let report = line@.skip(4);
            if report == encode_utf8("83886179"@) || (encode_utf8("83886179"@) + encode_utf8(
                " "@,
            )).is_prefix_of(report) {
                res matches Err(e) && e is PinentryCancelled
            } else {
                res matches Err(Error::PinentryErrorMessage { error }) && error@ == decode_utf8(
                    report,
                )
            }
        } else if encode_utf8("S "@).is_prefix_of(line@) {
            res == Ok::<Progress, Error>(Progress::ReadOn)
        } else if encode_utf8("D "@).is_prefix_of(line@) {
            res == Ok::<Progress, Error>(Progress::ReadEnd)
        } else {
            res matches Err(Error::PinentryErrorMessage { error }) && error@ == decode_utf8(line@)
        },
{
    if utf8_str(line).is_none() {
        return Err(Error::InvalidUtf8);
    }
    if starts_with(line, "OK".as_bytes()) {
        return Ok(Progress::Finished);
    }
    if starts_with(line, "ERR ".as_bytes()) {
        proof {
            lemma_reply_literals();
            assert forall|i: int| 0 <= i < 4 implies line@[i] < 0x80 by {
                assert(line@[i] == line@.subrange(0, 4)[i]);
            }
            lemma_utf8_behind_ascii(line@, 4);
        }
        let report = vstd::slice::slice_subrange(line, 4, line.len());
        assert(report@ =~= line@.skip(4));
        if cancelled(report) {
            return Err(Error::PinentryCancelled);
        }
        return Err(error_message(report));
    }
    if starts_with(line, "S ".as_bytes()) {
        return Ok(Progress::ReadOn);
    }
    if starts_with(line, "D ".as_bytes()) {
        return Ok(Progress::ReadEnd);
    }
    Err(error_message(line))
}

/// The error that pinentry reported in these words.
fn error_message(words: &[u8]) -> (res: Error)
    requires
        valid_utf8(words@),
    ensures
        res@ == (ErrorView::PinentryErrorMessage { error: decode_utf8(words@) }),
        res matches Error::PinentryErrorMessage { error } && error@ == decode_utf8(words@),
{
    match utf8_text(words) {
        Some(error) => Error::PinentryErrorMessage { error },
        None => Error::InvalidUtf8,
    }
}

/// A text that begins with ASCII is encoded with that ASCII in front, and the other way round.
proof fn lemma_ascii_in_front(front: Seq<char>, text: Seq<char>)
    requires
        is_ascii_chars(front),
    ensures
        encode_utf8(front).is_prefix_of(encode_utf8(text)) <==> front.is_prefix_of(text),
        encode_utf8(front) == encode_utf8(text) <==> front == text,
{
    let code = encode_utf8(text);
    let n = encode_utf8(front).len() as int;
    is_ascii_chars_encode_utf8(front);
    encode_utf8_valid_utf8(text);
    encode_utf8_decode_utf8(text);
    encode_utf8_decode_utf8(front);
    if front.is_prefix_of(text) {
        let rest = text.skip(front.len() as int);
        assert(front + rest =~= text);
        lemma_encode_concat(front, rest);
        assert(code.take(n) =~= encode_utf8(front));
    }
    if encode_utf8(front).is_prefix_of(code) {
        assert forall|i: int| 0 <= i < n implies code[i] < 0x80 by {
            assert(code[i] == code.take(n)[i]);
        }
        lemma_utf8_behind_ascii(code, n);
        let rest = decode_utf8(code.skip(n));
        decode_utf8_encode_utf8(code.skip(n));
        lemma_encode_concat(front, rest);
        assert(encode_utf8(front) + code.skip(n) =~= code);
        encode_utf8_decode_utf8(front + rest);
        assert(text == front + rest);
        assert(text.take(front.len() as int) =~= front);
    }
}

/// A reply is known by how it begins, whatever stands behind. A refusal with the code of a
/// dismissed dialogue is a dismissal, and any other is handed on in its own words. What begins
/// otherwise is no reply.
pub proof fn law_replies_are_known_by_their_beginning(rest: Seq<char>)
    ensures
        reply_meaning(encode_utf8("OK"@ + rest)) == Ok::<Progress, ErrorView>(Progress::Finished),
        reply_meaning(encode_utf8("S "@ + rest)) == Ok::<Progress, ErrorView>(Progress::ReadOn),
        reply_meaning(encode_utf8("D "@ + rest)) == Ok::<Progress, ErrorView>(Progress::ReadEnd),
        reply_meaning(encode_utf8("ERR "@ + rest)) == if rest == "83886179"@
            || "83886179 "@.is_prefix_of(rest) {
            Err::<Progress, ErrorView>(ErrorView::PinentryCancelled)
        } else {
            Err(ErrorView::PinentryErrorMessage { error: rest })
        },
        !"OK"@.is_prefix_of(rest) && !"ERR "@.is_prefix_of(rest) && !"S "@.is_prefix_of(rest)
            && !"D "@.is_prefix_of(rest) ==> reply_meaning(encode_utf8(rest)) == Err::<
            Progress,
            ErrorView,
        >(ErrorView::PinentryErrorMessage { error: rest }),
{
    reveal_strlit("OK");
    reveal_strlit("ERR ");
    reveal_strlit("S ");
    reveal_strlit("D ");
    reveal_strlit(" ");
    reveal_strlit("83886179");
    reveal_strlit("83886179 ");
    lemma_begins("OK"@, rest);
    lemma_begins("S "@, rest);
    lemma_begins("D "@, rest);
    lemma_begins("ERR "@, rest);
    let ok = "OK"@ + rest;
    let status = "S "@ + rest;
    let data = "D "@ + rest;
    let refusal = "ERR "@ + rest;
    assert(ok[0] == 'O');
    assert(status[0] == 'S');
    assert(data[0] == 'D');
    assert(refusal[0] == 'E');
    lemma_ascii_in_front("OK"@, status);
    lemma_ascii_in_front("ERR "@, status);
    lemma_ascii_in_front("OK"@, data);
    lemma_ascii_in_front("ERR "@, data);
    lemma_ascii_in_front("S "@, data);
    lemma_ascii_in_front("OK"@, refusal);
    lemma_ascii_in_front("OK"@, rest);
    lemma_ascii_in_front("ERR "@, rest);
    lemma_ascii_in_front("S "@, rest);
    lemma_ascii_in_front("D "@, rest);
    lemma_other_beginning("OK"@, status);
    lemma_other_beginning("ERR "@, status);
    lemma_other_beginning("OK"@, data);
    lemma_other_beginning("ERR "@, data);
    lemma_other_beginning("S "@, data);
    lemma_other_beginning("OK"@, refusal);
    encode_utf8_valid_utf8(rest);
    encode_utf8_decode_utf8(rest);
    lemma_ascii_in_front("83886179"@, rest);
    lemma_ascii_in_front("83886179 "@, rest);
    lemma_encode_concat("83886179"@, " "@);
    assert("83886179"@ + " "@ =~= "83886179 "@);
    lemma_reply_literals();
    assert(encode_utf8(refusal).skip(4) =~= encode_utf8(rest));
}

/// Text behind ASCII begins with it, encoded too.
proof fn lemma_begins(front: Seq<char>, rest: Seq<char>)
    ensures
        encode_utf8(front).is_prefix_of(encode_utf8(front + rest)),
        encode_utf8(front + rest) == encode_utf8(front) + encode_utf8(rest),
        valid_utf8(encode_utf8(front + rest)),
{
    lemma_encode_concat(front, rest);
    encode_utf8_valid_utf8(front + rest);
    let code = encode_utf8(front + rest);
    assert(code.take(encode_utf8(front).len() as int) =~= encode_utf8(front));
}

/// A text does not begin with one that begins otherwise.
proof fn lemma_other_beginning(front: Seq<char>, text: Seq<char>)
    requires
        front.len() > 0,
        text.len() > 0,
        front[0] != text[0],
    ensures
        !front.is_prefix_of(text),
{
    if front.is_prefix_of(text) {
        assert(text.take(front.len() as int)[0] == front[0]);
    }
}

/// What the line behind a data line means: `OK`, and nothing more, confirms the data.
pub open spec fn data_end_meaning(line: Seq<u8>) -> Result<(), ErrorView> {
    if !valid_utf8(line) {
        Err(ErrorView::InvalidUtf8)
    } else if line == encode_utf8("OK"@) {
        Ok(())
    } else {
        Err(ErrorView::PinentryErrorMessage { error: decode_utf8(line) })
    }
}

/// What the line behind a data line means.
pub fn data_end(line: &[u8]) -> (res: Result<(), Error>)
    ensures
        view_err(res) == data_end_meaning(line@),
        res is Ok <==> valid_utf8(line@) && line@ == encode_utf8("OK"@),
        !valid_utf8(line@) ==> (res matches Err(e) && e is InvalidUtf8),
        valid_utf8(line@) && line@ != encode_utf8("OK"@) ==> (res matches Err(
            Error::PinentryErrorMessage { error },
        ) && error@ == decode_utf8(line@)),
{
    if utf8_str(line).is_none() {
        return Err(Error::InvalidUtf8);
    }
    if same_bytes(line, "OK".as_bytes()) {
        return Ok(());
    }
    Err(error_message(line))
}

/// The data of a data line, decoded in place: they stand in the line from its third byte on,
/// up to the returned position.
pub fn data_payload(line: &mut [u8]) -> (res: usize)
    requires
        encode_utf8("D "@).is_prefix_of(old(line)@),
    ensures
        2 <= res <= old(line)@.len(),
        final(line)@.len() == old(line)@.len(),
        final(line)@.subrange(2, res as int) == percent_decoded(old(line)@.skip(2)),
{
    let ghost orig = line@;
    proof {
        lemma_reply_literals();
        assert(orig[0] == orig.subrange(0, 2)[0]);
        assert(orig[1] == orig.subrange(0, 2)[1]);
        assert(orig.skip(1).skip(1) =~= orig.skip(2));
        assert(percent_decoded(orig.skip(1)) == seq![orig[1]] + percent_decoded(orig.skip(2)));
        assert(percent_decoded(orig) =~= seq![orig[0], orig[1]] + percent_decoded(orig.skip(2)));
    }
    let len = percent_decode(line);
    assert(line@.subrange(2, len as int) =~= percent_decoded(orig.skip(2)));
    len
}

/// The lines of a reply by their views.
pub open spec fn line_views(lines: Seq<Vec<u8>>) -> Seq<Seq<u8>> {
    lines.map_values(|line: Vec<u8>| line@)
}

/// What a command comes to by the lines that pinentry has sent back: nothing yet, where more
/// lines are to come. Status lines are skipped. A confirmed data line gives the data, decoded.
pub open spec fn command_outcome(lines: Seq<Seq<u8>>) -> Option<Result<Seq<u8>, ErrorView>>
    decreases lines.len(),
{
    if lines.len() == 0 {
        None
    } else {
        match reply_meaning(lines[0]) {
            Err(e) => Some(Err(e)),
            Ok(Progress::Finished) => Some(Ok(lines[0])),
            Ok(Progress::ReadOn) => command_outcome(lines.skip(1)),
            Ok(Progress::ReadEnd) => if lines.len() == 1 {
                None
            } else {
                match data_end_meaning(lines[1]) {
                    Err(e) => Some(Err(e)),
                    Ok(_) => Some(Ok(percent_decoded(lines[0].skip(2)))),
                }
            },
        }
    }
}

/// The first line that is no status line decides what a command comes to. One that ends the
/// command is its result, and a refusal is its failure.
pub proof fn law_first_reply_decides(
    status: Seq<char>,
    line: Seq<u8>,
    text: Seq<char>,
    more: Seq<Seq<u8>>,
)
    ensures
        command_outcome(Seq::empty()) is None,
        command_outcome(seq![encode_utf8("S "@ + status)] + more) == command_outcome(more),
        command_outcome(seq![encode_utf8("OK"@ + text)] + more) == Some(
            Ok::<Seq<u8>, ErrorView>(encode_utf8("OK"@ + text)),
        ),
        reply_meaning(line) matches Err(e) ==> command_outcome(seq![line] + more) == Some(
            Err::<Seq<u8>, ErrorView>(e),
        ),
{
    law_replies_are_known_by_their_beginning(status);
    law_replies_are_known_by_their_beginning(text);
    let first = encode_utf8("S "@ + status);
    let last = encode_utf8("OK"@ + text);
    lemma_outcome_by_first_line(first, more);
    lemma_outcome_by_first_line(last, more);
    lemma_outcome_by_first_line(line, more);
}

/// What a command comes to by its first line, where that holds no data.
proof fn lemma_outcome_by_first_line(line: Seq<u8>, more: Seq<Seq<u8>>)
    ensures
        match reply_meaning(line) {
            Err(e) => command_outcome(seq![line] + more) == Some(Err::<Seq<u8>, ErrorView>(e)),
            Ok(Progress::Finished) => command_outcome(seq![line] + more) == Some(
                Ok::<Seq<u8>, ErrorView>(line),
            ),
            Ok(Progress::ReadOn) => command_outcome(seq![line] + more) == command_outcome(more),
            Ok(Progress::ReadEnd) => true,
        },
{
    let lines = seq![line] + more;
    assert(lines[0] == line);
    assert(lines.skip(1) =~= more);
}

/// Data are the result of a command, decoded, where exactly `OK` stands in the line behind them,
/// and its failure where anything else does.
pub proof fn law_data_are_confirmed(text: Seq<char>, end: Seq<u8>, more: Seq<Seq<u8>>)
    ensures
        command_outcome(seq![encode_utf8("D "@ + text)]) is None,
        command_outcome(seq![encode_utf8("D "@ + text), end] + more) == Some(
            if end == encode_utf8("OK"@) {
                Ok::<Seq<u8>, ErrorView>(percent_decoded(encode_utf8(text)))
            } else if valid_utf8(end) {
                Err(ErrorView::PinentryErrorMessage { error: decode_utf8(end) })
            } else {
                Err(ErrorView::InvalidUtf8)
            },
        ),
{
    let line = encode_utf8("D "@ + text);
    assert(reply_meaning(line) == Ok::<Progress, ErrorView>(Progress::ReadEnd)) by {
        law_replies_are_known_by_their_beginning(text);
    }
    assert(line.skip(2) =~= encode_utf8(text)) by {
        lemma_begins("D "@, text);
        lemma_reply_literals();
    }
    assert(valid_utf8(encode_utf8("OK"@))) by {
        encode_utf8_valid_utf8("OK"@);
    }
    let alone = seq![line];
    assert(alone[0] == line);
    let lines = seq![line, end] + more;
    assert(lines[0] == line);
    assert(lines[1] == end);
}

/// An outcome by its view.
pub open spec fn outcome_view(outcome: Option<Result<Vec<u8>, Error>>) -> Option<
    Result<Seq<u8>, ErrorView>,
> {
    match outcome {
        None => None,
        Some(Ok(bytes)) => Some(Ok(bytes@)),
        Some(Err(e)) => Some(Err(e@)),
    }
}

/// What a command comes to by the lines that pinentry has sent back. The lines are left as they
/// are, and the result is a copy.
pub fn command(lines: &Vec<Vec<u8>>) -> (res: Option<Result<Vec<u8>, Error>>)
    ensures
        outcome_view(res) == command_outcome(line_views(lines@)),
{
    let ghost views = line_views(lines@);
    let mut i: usize = 0;
    assert(views.skip(0) =~= views);
    while i < lines.len()
        invariant
            i <= lines.len(),
            views == line_views(lines@),
            command_outcome(views) == command_outcome(views.skip(i as int)),
        decreases lines.len() - i,
    {
        let ghost rest = views.skip(i as int);
        assert(rest[0] == lines@[i as int]@);
        match reply(lines[i].as_slice()) {
            Err(e) => {
                return Some(Err(e));
            },
            Ok(Progress::Finished) => {
                return Some(Ok(bytes_copy(lines[i].as_slice())));
            },
            Ok(Progress::ReadOn) => {
                assert(rest.skip(1) =~= views.skip(i + 1));
                i = i + 1;
            },
            Ok(Progress::ReadEnd) => {
                if i + 1 == lines.len() {
                    return None;
                }
                assert(rest[1] == lines@[i + 1]@);
                if let Err(e) = data_end(lines[i + 1].as_slice()) {
                    return Some(Err(e));
                }
                let mut line = bytes_copy(lines[i].as_slice());
                let len = data_payload(line.as_mut_slice());
                let data = bytes_copy(vstd::slice::slice_subrange(line.as_slice(), 2, len));
                return Some(Ok(data));
            },
        }
    }
    None
}

/// The terminal and the environment variables of the program that asked for a dialogue.
#[derive(Clone, Debug, PartialEq, Eq)]
pub struct Environment {
    pub tty: Option<Vec<u8>>,
    pub env_vars: Vec<(Vec<u8>, Vec<u8>)>,
}

impl Environment {
    /// The name of the terminal.
    pub open spec fn terminal(&self) -> Option<Seq<u8>> {
        match self.tty {
            Some(tty) => Some(tty@),
            None => None,
        }
    }

    /// The environment variables and their values.
    pub open spec fn variables(&self) -> Seq<(Seq<u8>, Seq<u8>)> {
        byte_pairs(self.env_vars@)
    }
}

/// A list of byte strings by their views.
pub open spec fn byte_views(list: Seq<Vec<u8>>) -> Seq<Seq<u8>> {
    list.map_values(|item: Vec<u8>| item@)
}

/// The arguments that pinentry is started with: it waits for the user without limit, on the
/// terminal and display of the program that asked, and grabs the keyboard only where asked to.
pub open spec fn arguments(
    terminal: Option<Seq<u8>>,
    variables: Seq<(Seq<u8>, Seq<u8>)>,
    grab: bool,
) -> Seq<Seq<u8>> {
    seq![encode_utf8("--timeout"@), encode_utf8("0"@)] + match terminal {
        Some(tty) => seq![encode_utf8("--ttyname"@), tty],
        None => seq![],
    } + match last_value(variables, encode_utf8("DISPLAY"@)) {
        Some(display) => seq![encode_utf8("--display"@), display],
        None => seq![],
    } + if grab {
        seq![]
    } else {
        seq![encode_utf8("--no-global-grab"@)]
    }
}

/// The arguments that pinentry is started with.
pub fn calc_args(environment: &Environment, grab: bool) -> (res: Vec<Vec<u8>>)
    ensures
        byte_views(res@) == arguments(environment.terminal(), environment.variables(), grab),
        ({
            let terminal: int = if environment.tty is Some {
                2
            } else {
                0
            };
            let shown = last_value(byte_pairs(environment.env_vars@), encode_utf8("DISPLAY"@));
            let display: int = if shown is Some {
                2
            } else {
                0
            };
            let no_grab: int = if grab {
                0
            } else {
                1
            };
            &&& res@.len() == 2 + terminal + display + no_grab
            &&& res@[0]@ == encode_utf8("--timeout"@)
            &&& res@[1]@ == encode_utf8("0"@)
            &&& environment.tty matches Some(tty) ==> res@[2]@ == encode_utf8("--ttyname"@)
                && res@[3]@ == tty@
            &&& shown matches Some(value) ==> res@[2 + terminal]@ == encode_utf8("--display"@)
                && res@[3 + terminal]@ == value
            &&& !grab ==> res@[res@.len() - 1]@ == encode_utf8("--no-global-grab"@)
        }),
{
    let mut args: Vec<Vec<u8>> = Vec::new();
    args.push(bytes_copy("--timeout".as_bytes()));
    args.push(bytes_copy("0".as_bytes()));
    if let Some(tty) = &environment.tty {
        args.push(bytes_copy("--ttyname".as_bytes()));
        args.push(bytes_copy(tty.as_slice()));
    }
    if let Some(display) = byte_value(&environment.env_vars, "DISPLAY".as_bytes()) {
        args.push(bytes_copy("--display".as_bytes()));
        args.push(display);
    }
    if !grab {
        args.push(bytes_copy("--no-global-grab".as_bytes()));
    }
    assert(byte_views(args@) =~= arguments(
        environment.terminal(),
        environment.variables(),
        grab,
    ));
    args
}

/// A change to the environment that pinentry inherits.
#[derive(Clone, Debug, PartialEq, Eq)]
pub enum EnvChange {
    Assign { name: Vec<u8>, value: Vec<u8> },
    Unset { name: Vec<u8> },
}

/// What an [`EnvChange`] says.
#[verifier::ext_equal]
pub enum EnvChangeView {
    Assign { name: Seq<u8>, value: Seq<u8> },
    Unset { name: Seq<u8> },
}

impl View for EnvChange {
    type V = EnvChangeView;

    open spec fn view(&self) -> EnvChangeView {
        match *self {
            EnvChange::Assign { name, value } => EnvChangeView::Assign { name: name@, value: value@ },
            EnvChange::Unset { name } => EnvChangeView::Unset { name: name@ },
        }
    }
}

/// A list of changes by their views.
pub open spec fn change_views(changes: Seq<EnvChange>) -> Seq<EnvChangeView> {
    changes.map_values(|change: EnvChange| change@)
}

/// The change to a variable that belongs to the program that asked: its value there, or none.
pub open spec fn own_change(variables: Seq<(Seq<u8>, Seq<u8>)>, name: Seq<u8>) -> EnvChangeView {
    match last_value(variables, name) {
        Some(value) => EnvChangeView::Assign { name, value },
        None => EnvChangeView::Unset { name },
    }
}

/// The changes to the environment that pinentry inherits: first to the `known` variables,
/// which never come from the agent's own environment, then to all that the program that asked
/// has sent.
pub open spec fn changes(known: Seq<Seq<u8>>, variables: Seq<(Seq<u8>, Seq<u8>)>) -> Seq<
    EnvChangeView,
> {
    known.map_values(|name: Seq<u8>| own_change(variables, name)) + variables.map_values(
        |pair: (Seq<u8>, Seq<u8>)| EnvChangeView::Assign { name: pair.0, value: pair.1 },
    )
}

/// The changes to the environment that pinentry inherits.
pub fn env_changes(known: &Vec<Vec<u8>>, environment: &Environment) -> (res: Vec<EnvChange>)
    ensures
        change_views(res@) == changes(byte_views(known@), environment.variables()),
        res@.len() == known@.len() + environment.env_vars@.len(),
        forall|i: int|
            #![trigger known@[i]]
            0 <= i < known@.len() ==> match last_value(
                byte_pairs(environment.env_vars@),
                known@[i]@,
            ) {
                Some(sent) => res@[i] matches EnvChange::Assign { name, value } && name@
                    == known@[i]@ && value@ == sent,
                None => res@[i] matches EnvChange::Unset { name } && name@ == known@[i]@,
            },
        forall|k: int|
            #![trigger environment.env_vars@[k]]
            0 <= k < environment.env_vars@.len() ==> (res@[known@.len() + k]
                matches EnvChange::Assign { name, value } && name@ == environment.env_vars@[k].0@
                && value@ == environment.env_vars@[k].1@),
{
    let ghost target = changes(byte_views(known@), environment.variables());
    let mut out: Vec<EnvChange> = Vec::new();
    let mut i: usize = 0;
    while i < known.len()
        invariant
            i <= known.len(),
            out.len() == i,
            target == changes(byte_views(known@), environment.variables()),
            forall|j: int| 0 <= j < i ==> (#[trigger] out@[j])@ == target[j],
        decreases known.len() - i,
    {
        let name = bytes_copy(known[i].as_slice());
        match byte_value(&environment.env_vars, name.as_slice()) {
            Some(value) => out.push(EnvChange::Assign { name, value }),
            None => out.push(EnvChange::Unset { name }),
        }
        i = i + 1;
    }
    let vars = &environment.env_vars;
    let mut k: usize = 0;
    while k < vars.len()
        invariant
            k <= vars.len(),
            vars@ == environment.env_vars@,
            out.len() == known.len() + k,
            target == changes(byte_views(known@), environment.variables()),
            forall|j: int| 0 <= j < out.len() ==> (#[trigger] out@[j])@ == target[j],
        decreases vars.len() - k,
    {
        let name = bytes_copy(vars[k].0.as_slice());
        let value = bytes_copy(vars[k].1.as_slice());
        assert(environment.variables()[k as int] == byte_pair(vars@[k as int]));
        out.push(EnvChange::Assign { name, value });
        k = k + 1;
    }
    assert(change_views(out@) =~= target);
    proof {
        assert forall|j: int| #![trigger known@[j]] 0 <= j < known@.len() implies out@[j]@
            == own_change(environment.variables(), known@[j]@) by {
            assert(out@[j]@ == target[j]);
            assert(byte_views(known@)[j] == known@[j]@);
        }
        assert forall|j: int| #![trigger environment.env_vars@[j]]
            0 <= j < environment.env_vars@.len() implies out@[known@.len() + j]@ == (
        EnvChangeView::Assign {
            name: environment.env_vars@[j].0@,
            value: environment.env_vars@[j].1@,
        }) by {
            assert(out@[known@.len() + j]@ == target[known@.len() + j]);
            assert(environment.variables()[j] == byte_pair(environment.env_vars@[j]));
        }
    }
    out
}

/// An environment after a list of changes, the first of them first.
pub open spec fn changed(inherited: Map<Seq<u8>, Seq<u8>>, list: Seq<EnvChangeView>) -> Map<
    Seq<u8>,
    Seq<u8>,
>
    decreases list.len(),
{
    if list.len() == 0 {
        inherited
    } else {
        let earlier = changed(inherited, list.drop_last());
        match list.last() {
            EnvChangeView::Assign { name, value } => earlier.insert(name, value),
            EnvChangeView::Unset { name } => earlier.remove(name),
        }
    }
}

/// Pinentry sees every variable that the program that asked has sent, with the value sent; of
/// the other known variables it sees none; and the rest is what the agent itself has.
pub proof fn law_pinentry_sees_the_callers_environment(
    inherited: Map<Seq<u8>, Seq<u8>>,
    known: Seq<Seq<u8>>,
    variables: Seq<(Seq<u8>, Seq<u8>)>,
    name: Seq<u8>,
)
    ensures
        ({
            let seen = changed(inherited, changes(known, variables));
            match last_value(variables, name) {
                Some(value) => seen.dom().contains(name) && seen[name] == value,
                None => if known.contains(name) {
                    !seen.dom().contains(name)
                } else {
                    &&& seen.dom().contains(name) == inherited.dom().contains(name)
                    &&& inherited.dom().contains(name) ==> seen[name] == inherited[name]
                },
            }
        }),
{
    let first = known.map_values(|n: Seq<u8>| own_change(variables, n));
    lemma_known_changes(inherited, known, variables, name);
    lemma_sent_changes(inherited, first, variables, name);
}

proof fn lemma_known_changes(
    inherited: Map<Seq<u8>, Seq<u8>>,
    known: Seq<Seq<u8>>,
    variables: Seq<(Seq<u8>, Seq<u8>)>,
    name: Seq<u8>,
)
    ensures
        ({
            let seen = changed(
                inherited,
                known.map_values(|n: Seq<u8>| own_change(variables, n)),
            );
            if known.contains(name) {
                match last_value(variables, name) {
                    Some(value) => seen.dom().contains(name) && seen[name] == value,
                    None => !seen.dom().contains(name),
                }
            } else {
                &&& seen.dom().contains(name) == inherited.dom().contains(name)
                &&& inherited.dom().contains(name) ==> seen[name] == inherited[name]
            }
        }),
    decreases known.len(),
{
    let f = |n: Seq<u8>| own_change(variables, n);
    if known.len() > 0 {
        let init = known.drop_last();
        lemma_known_changes(inherited, init, variables, name);
        assert(known.map_values(f).drop_last() =~= init.map_values(f));
        if known.last() != name && known.contains(name) {
            let k = choose|k: int| 0 <= k < known.len() && known[k] == name;
            assert(init[k] == name);
        }
        if init.contains(name) {
            let k = choose|k: int| 0 <= k < init.len() && init[k] == name;
            assert(known[k] == name);
        }
    }
}

proof fn lemma_sent_changes(
    inherited: Map<Seq<u8>, Seq<u8>>,
    first: Seq<EnvChangeView>,
    variables: Seq<(Seq<u8>, Seq<u8>)>,
    name: Seq<u8>,
)
    ensures
        ({
            let before = changed(inherited, first);
            let seen = changed(
                inherited,
                first + variables.map_values(
                    |pair: (Seq<u8>, Seq<u8>)|
                        EnvChangeView::Assign { name: pair.0, value: pair.1 },
                ),
            );
            match last_value(variables, name) {
                Some(value) => seen.dom().contains(name) && seen[name] == value,
                None => {
                    &&& seen.dom().contains(name) == before.dom().contains(name)
                    &&& before.dom().contains(name) ==> seen[name] == before[name]
                },
            }
        }),
    decreases variables.len(),
{
    let f = |pair: (Seq<u8>, Seq<u8>)| EnvChangeView::Assign { name: pair.0, value: pair.1 };
    if variables.len() == 0 {
        assert(first + variables.map_values(f) =~= first);
    } else {
        let init = variables.drop_last();
        lemma_sent_changes(inherited, first, init, name);
        assert((first + variables.map_values(f)).drop_last() =~= first + init.map_values(f));
    }
}

/// Whether pinentry's greeting is one: it starts with `OK`.
pub open spec fn greeting_meaning(line: Seq<u8>) -> Result<(), ErrorView> {
    if !valid_utf8(line) {
        Err(ErrorView::InvalidUtf8)
    } else if encode_utf8("OK"@).is_prefix_of(line) {
        Ok(())
    } else {
        Err(ErrorView::PinentryErrorMessage { error: decode_utf8(line) })
    }
}

/// Whether the first line that pinentry sends is its greeting.
pub fn greeting(line: &[u8]) -> (res: Result<(), Error>)
    ensures
        view_err(res) == greeting_meaning(line@),
        res is Ok <==> valid_utf8(line@) && encode_utf8("OK"@).is_prefix_of(line@),
        !valid_utf8(line@) ==> (res matches Err(e) && e is InvalidUtf8),
        valid_utf8(line@) && !encode_utf8("OK"@).is_prefix_of(line@) ==> (res matches Err(
            Error::PinentryErrorMessage { error },
        ) && error@ == decode_utf8(line@)),
{
    if utf8_str(line).is_none() {
        return Err(Error::InvalidUtf8);
    }
    if starts_with(line, "OK".as_bytes()) {
        return Ok(());
    }
    Err(error_message(line))
}

/// What is done with the pinentry process, beside reading from it.
#[derive(Clone, Copy, Debug, PartialEq, Eq, Structural)]
pub enum ProcessStep {
    /// Start it.
    Spawn,
    /// Take hold of its input.
    TakeStdin,
    /// Take hold of its output.
    TakeStdout,
    /// Write a command to it.
    Write,
    /// Wait for its end.
    Wait,
}

/// The error that a failed step with the pinentry process is, for this reason. The process has
/// no reason of its own where its input or output cannot be taken hold of.
pub open spec fn process_error(step: ProcessStep, message: Seq<char>) -> ErrorView {
    match step {
        ProcessStep::Spawn => ErrorView::Spawn { message },
        ProcessStep::TakeStdin => ErrorView::WriteStdin { message: "stdin unavailable"@ },
        ProcessStep::TakeStdout => ErrorView::PinentryReadOutput {
            message: "stdout unavailable"@,
        },
        ProcessStep::Write => ErrorView::WriteStdin { message },
        ProcessStep::Wait => ErrorView::PinentryWait { message },
    }
}

/// The error that a failed step with the pinentry process is.
pub fn process_failed(step: ProcessStep, message: String) -> (res: Error)
    ensures
        res@ == process_error(step, message@),
        step is Spawn ==> res == (Error::Spawn { message }),
        step is TakeStdin ==> (res matches Error::WriteStdin { message: told } && told@
            == "stdin unavailable"@),
        step is TakeStdout ==> (res matches Error::PinentryReadOutput { message: told } && told@
            == "stdout unavailable"@),
        step is Write ==> res == (Error::WriteStdin { message }),
        step is Wait ==> res == (Error::PinentryWait { message }),
{
    match step {
        ProcessStep::Spawn => Error::Spawn { message },
        ProcessStep::TakeStdin => Error::WriteStdin { message: "stdin unavailable".to_owned() },
        ProcessStep::TakeStdout => Error::PinentryReadOutput {
            message: "stdout unavailable".to_owned(),
        },
        ProcessStep::Write => Error::WriteStdin { message },
        ProcessStep::Wait => Error::PinentryWait { message },
    }
}

/// What is written to pinentry for a command: the command and the end of the line.
pub fn command_line(command: &str) -> (res: String)
    ensures
        res@ == command@ + "\n"@,
{
    let mut line = command.to_owned();
    line.append("\n");
    line
}

/// The commands of a dialogue that asks for a secret, in order: an error from an earlier
/// attempt is shown where there is one, and the reply to the last command is the secret.
pub open spec fn getpin_commands(
    prompt: Seq<char>,
    desc: Seq<char>,
    err: Option<Seq<char>>,
) -> Seq<Seq<char>> {
    seq!["SETTITLE rbw"@, "SETPROMPT "@ + prompt, "SETDESC "@ + desc] + match err {
        Some(e) => seq!["SETERROR "@ + e],
        None => seq![],
    } + seq!["GETPIN"@]
}

/// The commands of a dialogue that asks for a secret.
pub fn getpin(prompt: &str, desc: &str, err: Option<&str>) -> (res: Vec<String>)
    ensures
        text_views(res@) == getpin_commands(prompt@, desc@, slice_text_of(err)),
        res@.len() == if err is Some {
            5int
        } else {
            4int
        },
        res@[0]@ == "SETTITLE rbw"@,
        res@[1]@ == "SETPROMPT "@ + prompt@,
        res@[2]@ == "SETDESC "@ + desc@,
        err matches Some(shown) ==> res@[3]@ == "SETERROR "@ + shown@,
        res@[res@.len() - 1]@ == "GETPIN"@,
{
    let mut commands: Vec<String> = Vec::new();
    commands.push("SETTITLE rbw".to_owned());
    commands.push("SETPROMPT ".to_owned().concat(prompt));
    commands.push("SETDESC ".to_owned().concat(desc));
    if let Some(e) = err {
        commands.push("SETERROR ".to_owned().concat(e));
    }
    commands.push("GETPIN".to_owned());
    assert(text_views(commands@) =~= getpin_commands(prompt@, desc@, slice_text_of(err)));
    commands
}

/// The commands of a dialogue that asks for a confirmation, in order: it is given where none
/// of them is refused.
pub open spec fn confirm_commands(desc: Seq<char>) -> Seq<Seq<char>> {
    seq!["SETTITLE rbw"@, "SETDESC "@ + desc, "CONFIRM"@]
}

/// The commands of a dialogue that asks for a confirmation.
pub fn confirm(desc: &str) -> (res: Vec<String>)
    ensures
        text_views(res@) == confirm_commands(desc@),
        res@.len() == 3,
        res@[0]@ == "SETTITLE rbw"@,
        res@[1]@ == "SETDESC "@ + desc@,
        res@[2]@ == "CONFIRM"@,
{
    let mut commands: Vec<String> = Vec::new();
    commands.push("SETTITLE rbw".to_owned());
    commands.push("SETDESC ".to_owned().concat(desc));
    commands.push("CONFIRM".to_owned());
    assert(text_views(commands@) =~= confirm_commands(desc@));
    commands
}

/// A dialogue: its commands, and how many of them have succeeded.
#[derive(Clone, Debug, PartialEq, Eq)]
pub struct Dialogue {
    pub commands: Vec<String>,
    pub done: usize,
}

/// Where a dialogue stands after a reply.
#[derive(Clone, Debug, PartialEq, Eq)]
pub enum DialogueStep {
    /// The next command is to be sent.
    More(Dialogue),
    /// Every command has succeeded, and this is the reply to the last.
    Finished(Vec<u8>),
}

/// Where a dialogue stands, by how many commands are left.
#[verifier::ext_equal]
pub enum DialogueView {
    More(nat),
    Finished(Seq<u8>),
}

/// A dialogue with so many commands left after the reply to the next of them: a refusal ends it,
/// and the reply to the last command is what it comes to.
pub open spec fn dialogue_after(left: nat, reply: Result<Seq<u8>, ErrorView>) -> Result<
    DialogueView,
    ErrorView,
> {
    match reply {
        Err(e) => Err(e),
        Ok(bytes) => Ok(
            if left <= 1 {
                DialogueView::Finished(bytes)
            } else {
                DialogueView::More((left - 1) as nat)
            },
        ),
    }
}

/// What a dialogue with so many commands left comes to by these replies: nothing yet, where
/// there are too few.
pub open spec fn dialogue_outcome(
    left: nat,
    replies: Seq<Result<Seq<u8>, ErrorView>>,
) -> Option<Result<Seq<u8>, ErrorView>>
    decreases replies.len(),
{
    if replies.len() == 0 {
        None
    } else {
        match dialogue_after(left, replies[0]) {
            Err(e) => Some(Err(e)),
            Ok(DialogueView::Finished(reply)) => Some(Ok(reply)),
            Ok(DialogueView::More(rest)) => dialogue_outcome(rest, replies.skip(1)),
        }
    }
}

/// A reply by its view.
pub open spec fn reply_view(reply: Result<Vec<u8>, Error>) -> Result<Seq<u8>, ErrorView> {
    match reply {
        Ok(bytes) => Ok(bytes@),
        Err(e) => Err(e@),
    }
}

/// Where a dialogue stands, or its refusal, by its view.
pub open spec fn dialogue_view(res: Result<DialogueStep, Error>) -> Result<
    DialogueView,
    ErrorView,
> {
    match res {
        Ok(DialogueStep::More(dialogue)) => Ok(DialogueView::More(dialogue.left())),
        Ok(DialogueStep::Finished(reply)) => Ok(DialogueView::Finished(reply@)),
        Err(e) => Err(e@),
    }
}

impl Dialogue {
    /// Starts a dialogue.
    pub fn start(commands: Vec<String>) -> (res: Dialogue)
        ensures
            res.commands == commands,
            res.left() == commands@.len(),
            res.done == 0,
    {
        Dialogue { commands, done: 0 }
    }

    /// How many commands are still to be sent.
    pub open spec fn left(&self) -> nat {
        if self.done < self.commands@.len() {
            (self.commands@.len() - self.done) as nat
        } else {
            0
        }
    }

    /// The command that is sent next.
    pub fn next(&self) -> (res: Option<&String>)
        ensures
            res == if self.left() > 0 {
                Some(&self.commands@[self.commands@.len() - self.left()])
            } else {
                None
            },
            self.done < self.commands@.len() ==> res == Some(&self.commands@[self.done as int]),
            self.done >= self.commands@.len() ==> res is None,
    {
        if self.done < self.commands.len() {
            Some(&self.commands[self.done])
        } else {
            None
        }
    }

    /// Goes on with the dialogue after the reply to a command.
    pub fn replied(self, reply: Result<Vec<u8>, Error>) -> (res: Result<DialogueStep, Error>)
        requires
            self.left() > 0,
        ensures
            dialogue_view(res) == dialogue_after(self.left(), reply_view(reply)),
            res matches Ok(DialogueStep::More(next)) ==> next.commands == self.commands,
            reply matches Err(e) ==> res == Err::<DialogueStep, Error>(e),
            reply matches Ok(bytes) ==> if self.done + 1 == self.commands@.len() {
                res == Ok::<DialogueStep, Error>(DialogueStep::Finished(bytes))
            } else {
                res matches Ok(DialogueStep::More(next)) && next.done == self.done + 1
            },
    {
        let bytes = match reply {
            Ok(bytes) => bytes,
            Err(e) => {
                return Err(e);
            },
        };
        let count = self.commands.len();
        if count - self.done == 1 {
            return Ok(DialogueStep::Finished(bytes));
        }
        let done: usize = self.done + 1;
        Ok(DialogueStep::More(Dialogue { commands: self.commands, done }))
    }
}

/// A dialogue in which no command is refused comes to the reply to its last command, and one in
/// which a command is refused to the first refusal.
pub proof fn law_dialogue_ends_with_its_last_reply(
    count: nat,
    replies: Seq<Result<Seq<u8>, ErrorView>>,
)
    requires
        0 < count <= replies.len(),
    ensures
        match dialogue_outcome(count, replies) {
            Some(Ok(reply)) => {
                &&& replies[count - 1] == Ok::<Seq<u8>, ErrorView>(reply)
                &&& forall|i: int| 0 <= i < count ==> (#[trigger] replies[i]) is Ok
            },
            Some(Err(e)) => exists|k: int|
                0 <= k < count && #[trigger] replies[k] == Err::<Seq<u8>, ErrorView>(e)
                    && forall|i: int| 0 <= i < k ==> (#[trigger] replies[i]) is Ok,
            None => false,
        },
    decreases count,
{
    if replies[0] is Ok && count > 1 {
        let rest = replies.skip(1);
        let n = (count - 1) as nat;
        law_dialogue_ends_with_its_last_reply(n, rest);
        match dialogue_outcome(n, rest) {
            Some(Ok(reply)) => {
                assert(rest[n - 1] == replies[count - 1]);
                assert forall|i: int| 0 <= i < count implies (#[trigger] replies[i]) is Ok by {
                    if i > 0 {
                        assert(replies[i] == rest[i - 1]);
                    }
                }
            },
            Some(Err(e)) => {
                let k = choose|k: int|
                    0 <= k < n && #[trigger] rest[k] == Err::<Seq<u8>, ErrorView>(e) && forall|
                        i: int,
                    |
                        0 <= i < k ==> (#[trigger] rest[i]) is Ok;
                assert(replies[k + 1] == rest[k]);
                assert forall|i: int| 0 <= i < k + 1 implies (#[trigger] replies[i]) is Ok by {
                    if i > 0 {
                        assert(replies[i] == rest[i - 1]);
                    }
                }
            },
            None => {},
        }
    }
}

/// The user has confirmed where the dialogue that asked for it was not refused.
pub fn confirmed(outcome: Result<Vec<u8>, Error>) -> (res: Result<bool, Error>)
    ensures
        match outcome {
            Ok(_) => res == Ok::<bool, Error>(true),
            Err(e) => res == Err::<bool, Error>(e),
        },
{
    match outcome {
        Ok(_) => Ok(true),
        Err(e) => Err(e),
    }
}

} // verus!
