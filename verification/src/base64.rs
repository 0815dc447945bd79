//! Base64 as RFC 4648 defines it: the standard alphabet with padding, and the alphabet for
//! URLs and file names without.

use vstd::prelude::*;

verus! {

/// The two alphabets: they differ in their last two characters.
#[derive(Clone, Copy, PartialEq, Eq, Debug)]
pub enum Alphabet {
    /// `+` and `/`.
    Standard,
    /// `-` and `_`.
    UrlSafe,
}

/// The character that stands for a group of six bits.
pub open spec fn symbol(alphabet: Alphabet, group: int) -> char {
    if group < 26 {
        (0x41 + group) as char
    } else if group < 52 {
        (0x61 + group - 26) as char
    } else if group < 62 {
        (0x30 + group - 52) as char
    } else if group == 62 {
        if alphabet is Standard { '+' } else { '-' }
    } else {
        if alphabet is Standard { '/' } else { '_' }
    }
}

/// The encoding of a byte string: four characters for each three bytes; one byte over makes two
/// characters and two bytes over make three, with zero bits at the end of the last. The
/// standard alphabet fills a last incomplete group up to four characters with `=`.
pub open spec fn encoded(alphabet: Alphabet, bytes: Seq<u8>) -> Seq<char>
    decreases bytes.len(),
{
    if bytes.len() == 0 {
        Seq::empty()
    } else if bytes.len() == 1 {
        let head = seq![
            symbol(alphabet, (bytes[0] / 4) as int),
            symbol(alphabet, (bytes[0] % 4) * 16),
        ];
        if alphabet is Standard { head + seq!['=', '='] } else { head }
    } else if bytes.len() == 2 {
        let head = seq![
            symbol(alphabet, (bytes[0] / 4) as int),
            symbol(alphabet, (bytes[0] % 4) * 16 + bytes[1] / 16),
            symbol(alphabet, (bytes[1] % 16) * 4),
        ];
        if alphabet is Standard { head + seq!['='] } else { head }
    } else {
        seq![
            symbol(alphabet, (bytes[0] / 4) as int),
            symbol(alphabet, (bytes[0] % 4) * 16 + bytes[1] / 16),
            symbol(alphabet, (bytes[1] % 16) * 4 + bytes[2] / 64),
            symbol(alphabet, (bytes[2] % 64) as int),
        ] + encoded(alphabet, bytes.skip(3))
    }
}

/// The character that stands for a group of six bits.
fn symbol_char(alphabet: Alphabet, group: u8) -> (res: char)
    requires
        group < 64,
    ensures
        res == symbol(alphabet, group as int),
{
    if group < 26 {
        (0x41 + group) as char
    } else if group < 52 {
        (0x61 + (group - 26)) as char
    } else if group < 62 {
        (0x30 + (group - 52)) as char
    } else if group == 62 {
        match alphabet {
            Alphabet::Standard => '+',
            Alphabet::UrlSafe => '-',
        }
    } else {
        match alphabet {
            Alphabet::Standard => '/',
            Alphabet::UrlSafe => '_',
        }
    }
}

/// The encoding of a byte string in one of the alphabets.
fn encode_with(alphabet: Alphabet, bytes: &[u8]) -> (res: String)
    ensures
        res@ == encoded(alphabet, bytes@),
{
    let mut out = String::new();
    let mut i: usize = 0;
    assert(bytes@.skip(0) =~= bytes@);
    while bytes.len() - i >= 3
        invariant
            i <= bytes.len(),
            encoded(alphabet, bytes@) == out@ + encoded(alphabet, bytes@.skip(i as int)),
        decreases bytes.len() - i,
    {
        let a: u8 = bytes[i];
        let b: u8 = bytes[i + 1];
        let c: u8 = bytes[i + 2];
        let ghost before = out@;
        out.push(symbol_char(alphabet, a / 4));
        out.push(symbol_char(alphabet, (a % 4) * 16 + b / 16));
        out.push(symbol_char(alphabet, (b % 16) * 4 + c / 64));
        out.push(symbol_char(alphabet, c % 64));
        assert(bytes@.skip(i as int).skip(3) =~= bytes@.skip(i + 3));
        assert(before + encoded(alphabet, bytes@.skip(i as int)) =~= out@ + encoded(
            alphabet,
            bytes@.skip(i + 3),
        ));
        i = i + 3;
    }
    let ghost before = out@;
    let ghost rest = bytes@.skip(i as int);
    if bytes.len() - i == 1 {
        let a: u8 = bytes[i];
        out.push(symbol_char(alphabet, a / 4));
        out.push(symbol_char(alphabet, (a % 4) * 16));
        if let Alphabet::Standard = alphabet {
            out.push('=');
            out.push('=');
        }
    } else if bytes.len() - i == 2 {
        let a: u8 = bytes[i];
        let b: u8 = bytes[i + 1];
        out.push(symbol_char(alphabet, a / 4));
        out.push(symbol_char(alphabet, (a % 4) * 16 + b / 16));
        out.push(symbol_char(alphabet, (b % 16) * 4));
        if let Alphabet::Standard = alphabet {
            out.push('=');
        }
    }
    assert(out@ =~= before + encoded(alphabet, rest));
    out
}

/// The six bits that a character of either alphabet stands for.
pub open spec fn symbol_value(c: char) -> int {
    if 'A' <= c <= 'Z' {
        c as int - 0x41
    } else if 'a' <= c <= 'z' {
        c as int - 0x61 + 26
    } else if '0' <= c <= '9' {
        c as int - 0x30 + 52
    } else if c == '+' || c == '-' {
        62
    } else {
        63
    }
}

/// Every group of six bits is read back from its character, which is of the alphabet.
pub proof fn law_symbols_read_back(alphabet: Alphabet, group: int)
    requires
        0 <= group < 64,
    ensures
        symbol_value(symbol(alphabet, group)) == group,
        ({
            let c = symbol(alphabet, group);
            ||| 'A' <= c <= 'Z'
            ||| 'a' <= c <= 'z'
            ||| '0' <= c <= '9'
            ||| alphabet is Standard && (c == '+' || c == '/')
            ||| alphabet is UrlSafe && (c == '-' || c == '_')
        }),
{
}

/// The first four characters of an encoding hold the bits of the first three bytes, the rest of
/// it is the encoding of the bytes behind them. One or two bytes alone are held with zero bits
/// behind them, and the standard alphabet fills up to four characters.
pub proof fn law_encoding_carries_the_bits(alphabet: Alphabet, bytes: Seq<u8>)
    ensures
        ({
            let code = encoded(alphabet, bytes);
            &&& bytes.len() == 0 ==> code.len() == 0
            &&& bytes.len() >= 1 ==> code.len() >= 2
            &&& bytes.len() == 1 ==> {
                &&& symbol_value(code[0]) * 64 + symbol_value(code[1]) == bytes[0] * 16
                &&& alphabet is UrlSafe ==> code.len() == 2
                &&& alphabet is Standard ==> code.len() == 4 && code[2] == '=' && code[3] == '='
            }
            &&& bytes.len() == 2 ==> {
                &&& code.len() >= 3
                &&& symbol_value(code[0]) * 4096 + symbol_value(code[1]) * 64 + symbol_value(
                    code[2],
                ) == bytes[0] * 1024 + bytes[1] * 4
                &&& alphabet is UrlSafe ==> code.len() == 3
                &&& alphabet is Standard ==> code.len() == 4 && code[3] == '='
            }
            &&& bytes.len() >= 3 ==> {
                &&& code.len() >= 4
                &&& symbol_value(code[0]) * 262144 + symbol_value(code[1]) * 4096 + symbol_value(
                    code[2],
                ) * 64 + symbol_value(code[3]) == bytes[0] * 65536 + bytes[1] * 256 + bytes[2]
                &&& code.skip(4) == encoded(alphabet, bytes.skip(3))
            }
        }),
{
    let code = encoded(alphabet, bytes);
    if bytes.len() == 1 {
        let a = bytes[0];
        assert(a == 4 * (a / 4) + a % 4);
        law_symbols_read_back(alphabet, (a / 4) as int);
        law_symbols_read_back(alphabet, (a % 4) * 16);
        assert(code[0] == symbol(alphabet, (a / 4) as int));
        assert(code[1] == symbol(alphabet, (a % 4) * 16));
    } else if bytes.len() == 2 {
        let a = bytes[0];
        let b = bytes[1];
        assert(a == 4 * (a / 4) + a % 4);
        assert(b == 16 * (b / 16) + b % 16);
        law_symbols_read_back(alphabet, (a / 4) as int);
        law_symbols_read_back(alphabet, (a % 4) * 16 + b / 16);
        law_symbols_read_back(alphabet, (b % 16) * 4);
        assert(code[0] == symbol(alphabet, (a / 4) as int));
        assert(code[1] == symbol(alphabet, (a % 4) * 16 + b / 16));
        assert(code[2] == symbol(alphabet, (b % 16) * 4));
    } else if bytes.len() >= 3 {
        let a = bytes[0];
        let b = bytes[1];
        let c = bytes[2];
        assert(a == 4 * (a / 4) + a % 4);
        assert(b == 16 * (b / 16) + b % 16);
        assert(c == 64 * (c / 64) + c % 64);
        law_symbols_read_back(alphabet, (a / 4) as int);
        law_symbols_read_back(alphabet, (a % 4) * 16 + b / 16);
        law_symbols_read_back(alphabet, (b % 16) * 4 + c / 64);
        law_symbols_read_back(alphabet, (c % 64) as int);
        assert(code[0] == symbol(alphabet, (a / 4) as int));
        assert(code[1] == symbol(alphabet, (a % 4) * 16 + b / 16));
        assert(code[2] == symbol(alphabet, (b % 16) * 4 + c / 64));
        assert(code[3] == symbol(alphabet, (c % 64) as int));
        assert(code.skip(4) =~= encoded(alphabet, bytes.skip(3)));
    }
}

/// Different byte strings have different encodings.
pub proof fn law_encodings_tell_bytes_apart(alphabet: Alphabet, a: Seq<u8>, b: Seq<u8>)
    requires
        encoded(alphabet, a) == encoded(alphabet, b),
    ensures
        a == b,
    decreases a.len(),
{
    law_encoding_carries_the_bits(alphabet, a);
    law_encoding_carries_the_bits(alphabet, b);
    if a.len() >= 3 && b.len() >= 3 {
        assert(a[0] == b[0] && a[1] == b[1] && a[2] == b[2]);
        law_encodings_tell_bytes_apart(alphabet, a.skip(3), b.skip(3));
        assert(a =~= seq![a[0], a[1], a[2]] + a.skip(3));
        assert(b =~= seq![b[0], b[1], b[2]] + b.skip(3));
    } else {
        if alphabet is Standard {
            lemma_no_filling_in_full_groups(alphabet, a);
            lemma_no_filling_in_full_groups(alphabet, b);
        }
        assert(a.len() == b.len());
        assert(a =~= b);
    }
}

/// A group of four characters that holds three bytes has no filling, one that holds two bytes
/// has one at most.
proof fn lemma_no_filling_in_full_groups(alphabet: Alphabet, bytes: Seq<u8>)
    ensures
        bytes.len() == 2 ==> encoded(alphabet, bytes)[2] != '=',
        bytes.len() >= 3 ==> encoded(alphabet, bytes)[3] != '=' && encoded(alphabet, bytes)[2]
            != '=',
{
    if bytes.len() == 2 {
        assert(encoded(alphabet, bytes)[2] == symbol(alphabet, (bytes[1] % 16) * 4));
    } else if bytes.len() >= 3 {
        assert(encoded(alphabet, bytes)[2] == symbol(
            alphabet,
            (bytes[1] % 16) * 4 + bytes[2] / 64,
        ));
        assert(encoded(alphabet, bytes)[3] == symbol(alphabet, (bytes[2] % 64) as int));
    }
}

/// The standard encoding, with padding.
pub fn encode(bytes: &[u8]) -> (res: String)
    ensures
        res@ == encoded(Alphabet::Standard, bytes@),
{
    encode_with(Alphabet::Standard, bytes)
}

/// The encoding for URLs, without padding.
pub fn encode_url_safe_no_pad(bytes: &[u8]) -> (res: String)
    ensures
        res@ == encoded(Alphabet::UrlSafe, bytes@),
{
    encode_with(Alphabet::UrlSafe, bytes)
}

} // verus!
