//! Percent-encoding: a byte is written as itself, or as a percent sign and two hexadecimal
//! digits.

use vstd::prelude::*;
use vstd::string::*;
use vstd::utf8::*;

use crate::error::ErrorView;
use crate::pinentry::{
    begins_with_escape, command_outcome, hex_value, percent_decoded, PERCENT,
};

verus! {

broadcast use vstd::string::group_string_axioms;

/// The upper-case hexadecimal digit of a number below sixteen.
pub open spec fn hex_upper(n: int) -> char {
    if n < 10 {
        (0x30 + n) as char
    } else {
        (0x41 + n - 10) as char
    }
}

/// A byte as a percent sign and two hexadecimal digits.
pub open spec fn escape(b: u8) -> Seq<char> {
    seq!['%', hex_upper((b / 16) as int), hex_upper((b % 16) as int)]
}

/// A byte string as text, in which the bytes that `keep` holds of stand for themselves and
/// every other byte is escaped.
pub open spec fn percent_encoded(bytes: Seq<u8>, keep: spec_fn(u8) -> bool) -> Seq<char>
    decreases bytes.len(),
{
    if bytes.len() == 0 {
        Seq::empty()
    } else {
        (if keep(bytes[0]) {
            seq![bytes[0] as char]
        } else {
            escape(bytes[0])
        }) + percent_encoded(bytes.skip(1), keep)
    }
}

/// `percent_encoding::percent_encode_byte` gives the percent sign and the two upper-case
/// hexadecimal digits of the byte, whichever byte it is.
pub assume_specification[ percent_encoding::percent_encode_byte ](byte: u8) -> (res: &'static str)
    ensures
        res@ == escape(byte),
;

/// The bytes that a URL component keeps: letters, digits and `-`, `.`, `_`, `~`.
pub open spec fn unreserved(b: u8) -> bool {
    ||| 0x30 <= b <= 0x39
    ||| 0x41 <= b <= 0x5a
    ||| 0x61 <= b <= 0x7a
    ||| b == 0x2d
    ||| b == 0x2e
    ||| b == 0x5f
    ||| b == 0x7e
}

/// A string as a component of a URL: every byte of its UTF-8 encoding that is not unreserved is
/// escaped.
pub open spec fn url_encoded(s: Seq<char>) -> Seq<char> {
    percent_encoded(encode_utf8(s), |b: u8| unreserved(b))
}

/// `urlencoding::encode` keeps the unreserved bytes of the string's UTF-8 encoding and escapes
/// every other with upper-case digits.
#[verifier::external_body]
pub(crate) fn url_encode(s: &str) -> (res: String)
    ensures
        res@ == url_encoded(s@),
{
    urlencoding::encode(s).into_owned()
}

/// Whether an encoding can be read back: the percent sign itself is escaped, and so is every
/// byte that is not ASCII.
pub open spec fn readable(keep: spec_fn(u8) -> bool) -> bool {
    forall|b: u8| #[trigger] keep(b) ==> b < 0x80 && b != PERCENT
}

/// ASCII text as the bytes of its characters.
pub open spec fn ascii_bytes(s: Seq<char>) -> Seq<u8> {
    s.map_values(|c: char| c as u8)
}

/// Decoding undoes encoding, whichever bytes the encoding keeps, as long as it escapes the
/// percent sign.
pub proof fn law_decoding_undoes_encoding(bytes: Seq<u8>, keep: spec_fn(u8) -> bool)
    requires
        readable(keep),
    ensures
        percent_decoded(ascii_bytes(percent_encoded(bytes, keep))) == bytes,
    decreases bytes.len(),
{
    if bytes.len() == 0 {
        assert(ascii_bytes(percent_encoded(bytes, keep)) =~= Seq::<u8>::empty());
        assert(bytes =~= Seq::<u8>::empty());
    } else {
        let b = bytes[0];
        let rest = bytes.skip(1);
        let code = ascii_bytes(percent_encoded(bytes, keep));
        let tail = ascii_bytes(percent_encoded(rest, keep));
        law_decoding_undoes_encoding(rest, keep);
        if keep(b) {
            assert(code =~= seq![b] + tail);
            assert(!begins_with_escape(code));
            assert(code.skip(1) =~= tail);
        } else {
            let h = b / 16;
            let l = b % 16;
            assert(code =~= ascii_bytes(escape(b)) + tail);
            assert(code[0] == PERCENT);
            assert(code[1] == hex_upper(h as int) as u8);
            assert(code[2] == hex_upper(l as int) as u8);
            assert(hex_value(code[1]) == Some(h));
            assert(hex_value(code[2]) == Some(l));
            assert(h * 16 + l == b);
            assert(code.skip(3) =~= tail);
        }
        assert(seq![b] + rest =~= bytes);
    }
}

/// Encoded text is ASCII.
proof fn lemma_encoded_is_ascii(bytes: Seq<u8>, keep: spec_fn(u8) -> bool)
    requires
        readable(keep),
    ensures
        is_ascii_chars(percent_encoded(bytes, keep)),
    decreases bytes.len(),
{
    if bytes.len() > 0 {
        lemma_encoded_is_ascii(bytes.skip(1), keep);
    }
}

/// A secret that pinentry sends as data, however much of it is escaped, is what the command that
/// asked for it comes to.
pub proof fn law_secrets_come_back(secret: Seq<u8>, keep: spec_fn(u8) -> bool)
    requires
        readable(keep),
    ensures
        command_outcome(
            seq![encode_utf8("D "@ + percent_encoded(secret, keep)), encode_utf8("OK"@)],
        ) == Some(Ok::<Seq<u8>, ErrorView>(secret)),
{
    let code = percent_encoded(secret, keep);
    let text = "D "@ + code;
    let line = encode_utf8(text);
    let end = encode_utf8("OK"@);
    reveal_strlit("D ");
    reveal_strlit("OK");
    reveal_strlit("ERR ");
    reveal_strlit("S ");
    lemma_encoded_is_ascii(secret, keep);
    is_ascii_chars_encode_utf8(text);
    is_ascii_chars_encode_utf8("D "@);
    is_ascii_chars_encode_utf8("OK"@);
    is_ascii_chars_encode_utf8("ERR "@);
    is_ascii_chars_encode_utf8("S "@);
    encode_utf8_valid_utf8(text);
    encode_utf8_valid_utf8("OK"@);
    assert(line[0] == text[0] as u8);
    assert(line[1] == text[1] as u8);
    assert(!end.is_prefix_of(line)) by {
        assert(end[0] != line.take(end.len() as int)[0]);
    }
    assert(!encode_utf8("ERR "@).is_prefix_of(line)) by {
        if line.len() >= 4 {
            assert(encode_utf8("ERR "@)[0] != line.take(4)[0]);
        }
    }
    assert(!encode_utf8("S "@).is_prefix_of(line)) by {
        assert(encode_utf8("S "@)[0] != line.take(2)[0]);
    }
    assert(encode_utf8("D "@) =~= line.take(2));
    assert(line.skip(2) =~= ascii_bytes(code));
    law_decoding_undoes_encoding(secret, keep);
}

} // verus!
